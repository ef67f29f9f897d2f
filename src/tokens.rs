//! Tokenizer: turns the characters of an expression into tokens, one at a time.
use vstd::prelude::*;

verus! {

/// Relies on `char::is_whitespace`: whether a character has Unicode's White_Space property.
pub uninterp spec fn whitespace(c: char) -> bool;

/// Relies on `char::is_alphabetic`: whether a character has Unicode's Alphabetic property.
pub uninterp spec fn alphabetic(c: char) -> bool;

/// Relies on `char::is_whitespace`, which depends on the character alone.
#[verifier::external_body]
fn is_whitespace(c: char) -> (r: bool)
    ensures
        r == whitespace(c),
{
    c.is_whitespace()
}

/// Relies on `char::is_alphabetic`, which depends on the character alone.
#[verifier::external_body]
fn is_alphabetic(c: char) -> (r: bool)
    ensures
        r == alphabetic(c),
{
    c.is_alphabetic()
}

/// Relies on `str::chars` collected into a vector: the characters of `text`, in order.
#[verifier::external_body]
fn chars_of(text: &str) -> (r: Vec<char>)
    ensures
        r@ == text@,
{
    text.chars().collect()
}

/// Relies on `String`'s `FromIterator<&char>`: the same characters, in order.
#[verifier::external_body]
fn string_of(cs: &Vec<char>) -> (r: String)
    ensures
        r@ == cs@,
{
    cs.iter().collect()
}

/// A decimal digit, as `char::is_digit(10)` sees it.
pub open spec fn digit(c: char) -> bool {
    '0' <= c <= '9'
}

/// A character that may continue a numeric literal.
pub open spec fn number_char(c: char) -> bool {
    digit(c) || c == '.'
}

/// A character that may continue an identifier.
pub open spec fn ident_char(c: char) -> bool {
    alphabetic(c) || digit(c) || c == '_'
}

/// The end of the longest run of characters satisfying `p` that starts at `i`.
pub open spec fn run_end(s: Seq<char>, i: int, p: spec_fn(char) -> bool) -> int
    decreases s.len() - i,
{
    if i < 0 || i >= s.len() || !p(s[i]) {
        i
    } else {
        run_end(s, i + 1, p)
    }
}

/// Number of occurrences of `c` in `s`.
pub open spec fn count_of(s: Seq<char>, c: char) -> nat
    decreases s.len(),
{
    if s.len() == 0 {
        0
    } else {
        count_of(s.drop_last(), c) + if s.last() == c { 1nat } else { 0nat }
    }
}

/// A run of digits and dots that starts with a digit reads as a floating-point
/// number exactly when it holds at most one dot (`13.` and `0012.5` do, `1.2.3` does not).
pub open spec fn valid_number(lit: Seq<char>) -> bool {
    count_of(lit, '.') <= 1
}

/// `run_end` lies between `i` and the end, after a run that satisfies `p` and before a
/// character that does not.
pub proof fn lemma_run_end_bounds(s: Seq<char>, i: int, p: spec_fn(char) -> bool)
    requires
        0 <= i <= s.len(),
    ensures
        i <= run_end(s, i, p) <= s.len(),
        forall|k: int| i <= k < run_end(s, i, p) ==> p(s[k]),
        run_end(s, i, p) < s.len() ==> !p(s[run_end(s, i, p)]),
    decreases s.len() - i,
{
    if i < s.len() && p(s[i]) {
        lemma_run_end_bounds(s, i + 1, p);
    }
}

/// A run that holds only characters satisfying `p` and stops where `p` fails ends at `run_end`.
pub proof fn lemma_run_end_unique(s: Seq<char>, i: int, j: int, p: spec_fn(char) -> bool)
    requires
        0 <= i <= j <= s.len(),
        forall|k: int| i <= k < j ==> p(s[k]),
        j < s.len() ==> !p(s[j]),
    ensures
        run_end(s, i, p) == j,
    decreases j - i,
{
    if i < j {
        lemma_run_end_unique(s, i + 1, j, p);
    }
}

/// A lexical token. A number keeps the text of its literal.
#[derive(Debug, PartialEq, Clone)]
pub enum Token {
    Error,
    Number(String),
    Symbol(String),
    Plus,
    Minus,
    Star,
    Slash,
    Power,
    Open,
    Close,
}

/// The mathematical model of a token.
pub enum Tok {
    Error,
    Number(Seq<char>),
    Symbol(Seq<char>),
    Plus,
    Minus,
    Star,
    Slash,
    Power,
    Open,
    Close,
}

impl View for Token {
    type V = Tok;

    open spec fn view(&self) -> Tok {
        match self {
            Token::Error => Tok::Error,
            Token::Number(s) => Tok::Number(s@),
            Token::Symbol(s) => Tok::Symbol(s@),
            Token::Plus => Tok::Plus,
            Token::Minus => Tok::Minus,
            Token::Star => Tok::Star,
            Token::Slash => Tok::Slash,
            Token::Power => Tok::Power,
            Token::Open => Tok::Open,
            Token::Close => Tok::Close,
        }
    }
}

/// The text that a token stands for.
pub open spec fn tok_text(t: Tok) -> Seq<char> {
    match t {
        Tok::Error => "ERROR"@,
        Tok::Number(s) => s,
        Tok::Symbol(s) => s,
        Tok::Plus => "+"@,
        Tok::Minus => "-"@,
        Tok::Star => "*"@,
        Tok::Slash => "/"@,
        Tok::Power => "^"@,
        Tok::Open => "("@,
        Tok::Close => ")"@,
    }
}

impl Token {
    /// The text that the token stands for: the literal of a number, the name of a symbol,
    /// the character of an operator.
    pub fn text(&self) -> (r: String)
        ensures
            r@ == tok_text(self@),
    {
        match self {
            Token::Error => String::from_str("ERROR"),
            Token::Number(s) => s.clone(),
            Token::Symbol(s) => s.clone(),
            Token::Plus => String::from_str("+"),
            Token::Minus => String::from_str("-"),
            Token::Star => String::from_str("*"),
            Token::Slash => String::from_str("/"),
            Token::Power => String::from_str("^"),
            Token::Open => String::from_str("("),
            Token::Close => String::from_str(")"),
        }
    }
}

/// The first position at or after `i` that holds no whitespace.
pub open spec fn skip_space(s: Seq<char>, i: int) -> int {
    run_end(s, i, |c: char| whitespace(c))
}

/// The token for a single operator or parenthesis character.
pub open spec fn operator_tok(c: char) -> Option<Tok> {
    if c == '+' {
        Some(Tok::Plus)
    } else if c == '-' {
        Some(Tok::Minus)
    } else if c == '*' {
        Some(Tok::Star)
    } else if c == '/' {
        Some(Tok::Slash)
    } else if c == '^' {
        Some(Tok::Power)
    } else if c == '(' {
        Some(Tok::Open)
    } else if c == ')' {
        Some(Tok::Close)
    } else {
        None
    }
}

/// The token read from position `i` of `s`, and the position after it; `None` as the token
/// where nothing more is read (end of input, an unknown character, or a malformed number).
pub open spec fn next_token(s: Seq<char>, i: int) -> (Option<Tok>, int) {
    let j = skip_space(s, i);
    if j >= s.len() {
        (None, j)
    } else if digit(s[j]) {
        let k = run_end(s, j, |c: char| number_char(c));
        let lit = s.subrange(j, k);
        if valid_number(lit) {
            (Some(Tok::Number(lit)), k)
        } else {
            (None, k)
        }
    } else if alphabetic(s[j]) {
        let k = run_end(s, j, |c: char| ident_char(c));
        (Some(Tok::Symbol(s.subrange(j, k))), k)
    } else {
        match operator_tok(s[j]) {
            Some(t) => (Some(t), j + 1),
            None => (None, j),
        }
    }
}

/// The tokens read from position `i` of `s` up to the first place where none is read.
pub open spec fn tokens_from(s: Seq<char>, i: int) -> Seq<Tok>
    decreases s.len() - i,
{
    let (t, j) = next_token(s, i);
    match t {
        None => seq![],
        Some(t) => if i < j <= s.len() {
            seq![t] + tokens_from(s, j)
        } else {
            seq![]
        },
    }
}

/// The tokens of a whole text.
pub open spec fn tokenize_spec(s: Seq<char>) -> Seq<Tok> {
    tokens_from(s, 0)
}

/// A cursor over the characters of a text.
pub struct Tokenizer {
    chars: Vec<char>,
    pos: usize,
}

impl Tokenizer {
    /// The characters of the text.
    pub closed spec fn text(&self) -> Seq<char> {
        self.chars@
    }

    /// The position of the cursor.
    pub closed spec fn pos(&self) -> int {
        self.pos as int
    }

    /// The cursor lies within the text.
    pub closed spec fn wf(&self) -> bool {
        self.pos <= self.chars.len()
    }

    pub fn new(text: &str) -> (r: Tokenizer)
        ensures
            r.wf(),
            r.text() == text@,
            r.pos() == 0,
    {
        Tokenizer { chars: chars_of(text), pos: 0 }
    }

    /// Reads up to `count` characters and returns them.
    pub fn take(&mut self, count: usize) -> (r: String)
        requires
            old(self).wf(),
        ensures
            final(self).wf(),
            final(self).text() == old(self).text(),
            final(self).pos() == vstd::math::min(old(self).pos() + count, old(self).text().len() as int),
            r@ == old(self).text().subrange(old(self).pos(), final(self).pos()),
    {
        let start = self.pos;
        self.skip(count);
        self.collect_from(start)
    }

    /// Moves past up to `count` characters.
    pub fn skip(&mut self, count: usize)
        requires
            old(self).wf(),
        ensures
            final(self).wf(),
            final(self).text() == old(self).text(),
            final(self).pos() == vstd::math::min(old(self).pos() + count, old(self).text().len() as int),
    {
        let rest = self.chars.len() - self.pos;
        if count < rest {
            self.pos = self.pos + count;
        } else {
            self.pos = self.chars.len();
        }
    }

    /// The characters from `start` up to the cursor.
    fn collect_from(&self, start: usize) -> (r: String)
        requires
            self.wf(),
            start <= self.pos(),
        ensures
            r@ == self.text().subrange(start as int, self.pos()),
    {
        let mut v: Vec<char> = Vec::new();
        let mut i: usize = start;
        while i < self.pos
            invariant
                self.wf(),
                start <= i <= self.pos,
                v@ == self.chars@.subrange(start as int, i as int),
            decreases self.pos - i,
        {
            v.push(self.chars[i]);
            i = i + 1;
            assert(v@ =~= self.chars@.subrange(start as int, i as int));
        }
        string_of(&v)
    }

    /// Reads the longest run of characters that satisfy `pred` and returns it.
    pub fn take_while<P: Fn(char) -> bool>(&mut self, pred: P) -> (r: String)
        requires
            old(self).wf(),
            forall|c: char| pred.requires((c,)),
        ensures
            final(self).wf(),
            final(self).text() == old(self).text(),
            old(self).pos() <= final(self).pos(),
            forall|k: int|
                old(self).pos() <= k < final(self).pos() ==> pred.ensures((old(self).text()[k],), true),
            final(self).pos() < final(self).text().len() ==> pred.ensures(
                (final(self).text()[final(self).pos()],),
                false,
            ),
            r@ == old(self).text().subrange(old(self).pos(), final(self).pos()),
    {
        let start = self.pos;
        self.skip_while(pred);
        self.collect_from(start)
    }

    /// Moves past the longest run of characters that satisfy `pred`.
    pub fn skip_while<P: Fn(char) -> bool>(&mut self, pred: P)
        requires
            old(self).wf(),
            forall|c: char| pred.requires((c,)),
        ensures
            final(self).wf(),
            final(self).text() == old(self).text(),
            old(self).pos() <= final(self).pos(),
            forall|k: int|
                old(self).pos() <= k < final(self).pos() ==> pred.ensures((old(self).text()[k],), true),
            final(self).pos() < final(self).text().len() ==> pred.ensures(
                (final(self).text()[final(self).pos()],),
                false,
            ),
    {
        let ghost start = self.pos;
        let mut going = true;
        while going && self.pos < self.chars.len()
            invariant
                self.wf(),
                self.chars@ == old(self).chars@,
                start == old(self).pos <= self.pos,
                forall|c: char| pred.requires((c,)),
                forall|k: int| start <= k < self.pos ==> pred.ensures((self.chars@[k],), true),
                !going ==> self.pos < self.chars.len() && pred.ensures((self.chars@[self.pos as int],), false),
            decreases self.chars.len() - self.pos, if going { 1int } else { 0int },
        {
            let c = self.chars[self.pos];
            if pred(c) {
                self.pos = self.pos + 1;
            } else {
                going = false;
            }
        }
    }

    /// Whether the characters from `start` up to the cursor read as a number.
    fn valid_number_from(&self, start: usize) -> (r: bool)
        requires
            self.wf(),
            start <= self.pos(),
        ensures
            r == valid_number(self.text().subrange(start as int, self.pos())),
    {
        let mut dots: usize = 0;
        let mut i: usize = start;
        while i < self.pos
            invariant
                self.wf(),
                start <= i <= self.pos,
                dots <= 1,
                dots == count_of(self.chars@.subrange(start as int, i as int), '.'),
            decreases self.pos - i,
        {
            let ghost before = self.chars@.subrange(start as int, i as int);
            assert(self.chars@.subrange(start as int, i + 1 as int).drop_last() =~= before);
            if self.chars[i] == '.' {
                if dots == 1 {
                    proof {
                        let s = self.chars@;
                        lemma_count_prefix(s.subrange(start as int, self.pos as int), (i + 1 - start) as int, '.');
                        assert(s.subrange(start as int, self.pos as int).subrange(0, (i + 1 - start) as int)
                            =~= s.subrange(start as int, i + 1 as int));
                    }
                    return false;
                }
                dots = dots + 1;
            }
            i = i + 1;
        }
        true
    }

    /// Reads the next token, skipping whitespace before it; `None` where no token can be read.
    pub fn next(&mut self) -> (r: Option<Token>)
        requires
            old(self).wf(),
        ensures
            final(self).wf(),
            final(self).text() == old(self).text(),
            (opt_view(r), final(self).pos()) == next_token(old(self).text(), old(self).pos()),
    {
        let ghost s = self.chars@;
        self.skip_while(|c: char| -> (b: bool)
            ensures
                b == whitespace(c),
            { is_whitespace(c) });
        proof {
            lemma_run_end_unique(s, old(self).pos as int, self.pos as int, |c: char| whitespace(c));
        }
        if self.pos >= self.chars.len() {
            return None;
        }
        let j = self.pos;
        let c = self.chars[j];
        if '0' <= c && c <= '9' {
            let lit = self.take_while(|c: char| -> (b: bool)
                ensures
                    b == number_char(c),
                { ('0' <= c && c <= '9') || c == '.' });
            proof {
                lemma_run_end_unique(s, j as int, self.pos as int, |c: char| number_char(c));
            }
            if self.valid_number_from(j) {
                Some(Token::Number(lit))
            } else {
                None
            }
        } else if is_alphabetic(c) {
            let name = self.take_while(|c: char| -> (b: bool)
                ensures
                    b == ident_char(c),
                { is_alphabetic(c) || ('0' <= c && c <= '9') || c == '_' });
            proof {
                lemma_run_end_unique(s, j as int, self.pos as int, |c: char| ident_char(c));
            }
            Some(Token::Symbol(name))
        } else {
            let t = if c == '+' {
                Token::Plus
            } else if c == '-' {
                Token::Minus
            } else if c == '*' {
                Token::Star
            } else if c == '/' {
                Token::Slash
            } else if c == '^' {
                Token::Power
            } else if c == '(' {
                Token::Open
            } else if c == ')' {
                Token::Close
            } else {
                return None;
            };
            self.skip(1);
            Some(t)
        }
    }
}

/// The model of an optional token.
pub open spec fn opt_view(t: Option<Token>) -> Option<Tok> {
    match t {
        Some(t) => Some(t@),
        None => None,
    }
}

/// A prefix never holds more of a character than the whole sequence.
pub proof fn lemma_count_prefix(s: Seq<char>, n: int, c: char)
    requires
        0 <= n <= s.len(),
    ensures
        count_of(s.subrange(0, n), c) <= count_of(s, c),
    decreases s.len(),
{
    if n < s.len() {
        assert(s.drop_last().subrange(0, n) =~= s.subrange(0, n));
        lemma_count_prefix(s.drop_last(), n, c);
    } else {
        assert(s.subrange(0, n) =~= s);
    }
}

/// A token that is read lies after the position it is read from, within the text.
pub proof fn lemma_next_token_advances(s: Seq<char>, i: int)
    requires
        0 <= i <= s.len(),
    ensures
        i <= next_token(s, i).1 <= s.len(),
        next_token(s, i).0 is Some ==> i < next_token(s, i).1,
{
    lemma_run_end_bounds(s, i, |c: char| whitespace(c));
    let j = skip_space(s, i);
    if j < s.len() {
        lemma_run_end_bounds(s, j, |c: char| number_char(c));
        lemma_run_end_bounds(s, j, |c: char| ident_char(c));
    }
}

/// All the tokens of `text`, up to the first place where none can be read.
pub fn tokenize(text: &str) -> (r: Vec<Token>)
    ensures
        r@.map_values(|t: Token| t@) == tokenize_spec(text@),
{
    let mut tokens = Tokenizer::new(text);
    let mut r: Vec<Token> = Vec::new();
    loop
        invariant
            tokens.wf(),
            tokens.text() == text@,
            r@.map_values(|t: Token| t@) + tokens_from(text@, tokens.pos()) == tokenize_spec(text@),
        decreases text@.len() - tokens.pos(),
    {
        let ghost before = tokens.pos();
        match tokens.next() {
            None => {
                assert(r@.map_values(|t: Token| t@) + seq![] =~= r@.map_values(|t: Token| t@));
                return r;
            },
            Some(t) => {
                proof {
                    lemma_next_token_advances(text@, before);
                }
                let ghost prev = r@.map_values(|t: Token| t@);
                let ghost tv = t@;
                r.push(t);
                assert(r@.map_values(|t: Token| t@) =~= prev.push(tv));
                assert(prev.push(tv) + tokens_from(text@, tokens.pos()) =~= prev + (seq![tv]
                    + tokens_from(text@, tokens.pos())));
            },
        }
    }
}

} // verus!
