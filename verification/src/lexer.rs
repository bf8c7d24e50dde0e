use vstd::prelude::*;
use vstd::string::*;
use crate::token::{Keyword, Literal, Operator, Punctuation, Token, TokenKind, TypeIdentifier};
use crate::token::{tokens_view, LiteralView, TokenKindView, TokenView};
use crate::text::{push_char, string_of_chars};

verus! {

// ---------------------------------------------------------------------------
// Character classes
// ---------------------------------------------------------------------------

/// Whether `char::is_whitespace` accepts `c`; the Unicode table itself is not
/// restated here.
pub uninterp spec fn char_is_whitespace(c: char) -> bool;

/// Whether `char::is_alphabetic` accepts `c`.
pub uninterp spec fn char_is_alphabetic(c: char) -> bool;

/// Whether `char::is_alphanumeric` accepts `c`.
pub uninterp spec fn char_is_alphanumeric(c: char) -> bool;

/// Relies on char::is_whitespace: the answer depends on the character alone;
/// space, tab, newline and carriage return are whitespace, while ASCII
/// digits, ASCII letters and `_` are not.
#[verifier::external_body]
pub(crate) fn is_whitespace_char(c: char) -> (r: bool)
    ensures
        r == char_is_whitespace(c),
        (c == ' ' || c == '\t' || c == '\n' || c == '\r') ==> r,
        (is_dec_digit(c) || is_ascii_letter(c) || c == '_') ==> !r,
{
    c.is_whitespace()
}

/// Relies on char::is_alphabetic: the answer depends on the character alone;
/// ASCII letters are alphabetic, while ASCII digits, `_` and the ASCII
/// whitespace characters are not.
#[verifier::external_body]
fn is_alphabetic_char(c: char) -> (r: bool)
    ensures
        r == char_is_alphabetic(c),
        is_ascii_letter(c) ==> r,
        (is_dec_digit(c) || c == '_' || c == ' ' || c == '\t' || c == '\n' || c == '\r') ==> !r,
{
    c.is_alphabetic()
}

/// Relies on char::is_alphanumeric: the answer depends on the character
/// alone; every alphabetic character counts, ASCII letters and digits count,
/// while `_` and the ASCII whitespace characters do not.
#[verifier::external_body]
fn is_alphanumeric_char(c: char) -> (r: bool)
    ensures
        r == char_is_alphanumeric(c),
        char_is_alphabetic(c) ==> r,
        (is_ascii_letter(c) || is_dec_digit(c)) ==> r,
        (c == '_' || c == ' ' || c == '\t' || c == '\n' || c == '\r') ==> !r,
{
    c.is_alphanumeric()
}

pub open spec fn is_dec_digit(c: char) -> bool {
    48 <= (c as u32) && (c as u32) <= 57
}

/// An ASCII letter.
pub open spec fn is_ascii_letter(c: char) -> bool {
    (65 <= (c as u32) && (c as u32) <= 90) || (97 <= (c as u32) && (c as u32) <= 122)
}

pub open spec fn is_bin_digit(c: char) -> bool {
    c == '0' || c == '1'
}

pub open spec fn is_hex_digit(c: char) -> bool {
    is_dec_digit(c) || (97 <= (c as u32) && (c as u32) <= 102) || (65 <= (c as u32) && (c as u32)
        <= 70)
}

/// Whether `c` is a digit of the given radix (2, 10 or 16).
pub open spec fn is_radix_digit(c: char, base: u32) -> bool {
    if base == 2 {
        is_bin_digit(c)
    } else if base == 16 {
        is_hex_digit(c)
    } else {
        is_dec_digit(c)
    }
}

/// The numeric value of a digit (hex letters included).
pub open spec fn digit_value(c: char) -> nat {
    if is_dec_digit(c) {
        ((c as u32) - 48) as nat
    } else if 97 <= (c as u32) && (c as u32) <= 102 {
        ((c as u32) - 87) as nat
    } else if 65 <= (c as u32) && (c as u32) <= 70 {
        ((c as u32) - 55) as nat
    } else {
        0
    }
}

/// The mathematical value of a digit string read in the given radix.
pub open spec fn digits_value(s: Seq<char>, base: u32) -> nat
    decreases s.len(),
{
    if s.len() == 0 {
        0
    } else {
        digits_value(s.drop_last(), base) * (base as nat) + digit_value(s.last())
    }
}

/// A character that may continue an identifier.
pub open spec fn is_ident_char(c: char) -> bool {
    char_is_alphanumeric(c) || c == '_'
}

// ---------------------------------------------------------------------------
// Line and column bookkeeping
// ---------------------------------------------------------------------------

/// The 1-based line number after consuming `pos` characters of `s`.
pub open spec fn line_of(s: Seq<char>, pos: int) -> int
    decreases pos,
{
    if pos <= 0 {
        1
    } else {
        line_of(s, pos - 1) + if s[pos - 1] == '\n' {
            1int
        } else {
            0int
        }
    }
}

/// The 1-based column after consuming `pos` characters of `s`.
pub open spec fn col_of(s: Seq<char>, pos: int) -> int
    decreases pos,
{
    if pos <= 0 {
        1
    } else if s[pos - 1] == '\n' {
        1
    } else {
        col_of(s, pos - 1) + 1
    }
}

proof fn lemma_line_col_bounds(s: Seq<char>, pos: int)
    requires
        0 <= pos,
    ensures
        1 <= line_of(s, pos) <= pos + 1,
        1 <= col_of(s, pos) <= pos + 1,
    decreases pos,
{
    if pos > 0 {
        lemma_line_col_bounds(s, pos - 1);
    }
}

// ---------------------------------------------------------------------------
// The lexer state
// ---------------------------------------------------------------------------

/// Converts source text into positioned tokens, one step at a time.  The
/// cursor walks over Unicode scalar values, tracking line and column for
/// diagnostics.
pub struct Lexer {
    chars: Vec<char>,
    position: usize,
    line: usize,
    column: usize,
}

impl Lexer {
    /// The source text being lexed.
    pub closed spec fn src(&self) -> Seq<char> {
        self.chars@
    }

    /// How many characters have been consumed.
    pub closed spec fn pos(&self) -> int {
        self.position as int
    }

    /// The cursor sits inside the text and line/column agree with the
    /// consumed prefix.
    pub closed spec fn wf(&self) -> bool {
        &&& self.position <= self.chars@.len()
        &&& self.chars@.len() < usize::MAX
        &&& self.line as int == line_of(self.chars@, self.position as int)
        &&& self.column as int == col_of(self.chars@, self.position as int)
    }

    pub fn new(input: &str) -> (l: Lexer)
        requires
            input@.len() < usize::MAX,
        ensures
            l.wf(),
            l.src() == input@,
            l.pos() == 0,
    {
        let n = input.unicode_len();
        let mut chars: Vec<char> = Vec::new();
        let mut i: usize = 0;
        while i < n
            invariant
                i <= n,
                n == input@.len() < usize::MAX,
                chars@ == input@.take(i as int),
            decreases n - i,
        {
            let c = input.get_char(i);
            chars.push(c);
            i = i + 1;
            proof {
                assert(chars@ =~= input@.take(i as int));
            }
        }
        proof {
            assert(chars@ =~= input@);
        }
        Lexer { chars, position: 0, line: 1, column: 1 }
    }

    /// The next character, if any, without consuming it.
    pub fn peek(&self) -> (r: Option<char>)
        requires
            self.wf(),
        ensures
            r == if self.pos() < self.src().len() {
                Some(self.src()[self.pos()])
            } else {
                None::<char>
            },
    {
        if self.position < self.chars.len() {
            Some(self.chars[self.position])
        } else {
            None
        }
    }

    /// Consume and return the next character, advancing line/column.
    pub fn bump(&mut self) -> (r: Option<char>)
        requires
            old(self).wf(),
        ensures
            final(self).wf(),
            final(self).src() == old(self).src(),
            if old(self).pos() < old(self).src().len() {
                r == Some(old(self).src()[old(self).pos()]) && final(self).pos() == old(self).pos()
                    + 1
            } else {
                r == None::<char> && final(self).pos() == old(self).pos()
            },
    {
        if self.position < self.chars.len() {
            let c = self.chars[self.position];
            proof {
                lemma_line_col_bounds(self.chars@, self.position as int);
            }
            if c == '\n' {
                self.line = self.line + 1;
                self.column = 1;
            } else {
                self.column = self.column + 1;
            }
            self.position = self.position + 1;
            Some(c)
        } else {
            None
        }
    }

    /// Consume the maximal run of whitespace at the cursor.
    pub fn skip_whitespace(&mut self)
        requires
            old(self).wf(),
        ensures
            final(self).wf(),
            final(self).src() == old(self).src(),
            final(self).pos() == skip_ws_end(old(self).src(), old(self).pos()),
    {
        loop
            invariant
                self.wf(),
                self.src() == old(self).src(),
                skip_ws_end(self.src(), self.pos()) == skip_ws_end(old(self).src(), old(self).pos()),
            ensures
                self.wf(),
                self.src() == old(self).src(),
                self.pos() == skip_ws_end(old(self).src(), old(self).pos()),
            decreases self.src().len() - self.pos(),
        {
            match self.peek() {
                Some(c) => {
                    if is_whitespace_char(c) {
                        self.bump();
                    } else {
                        break;
                    }
                },
                None => {
                    break;
                },
            }
        }
    }
}

// ---------------------------------------------------------------------------
// Maximal runs
// ---------------------------------------------------------------------------

/// The index just past the maximal whitespace run starting at `pos`.
pub open spec fn skip_ws_end(s: Seq<char>, pos: int) -> int
    decreases s.len() - pos,
{
    if 0 <= pos < s.len() && char_is_whitespace(s[pos]) {
        skip_ws_end(s, pos + 1)
    } else {
        pos
    }
}

/// The index just past the maximal run of radix digits starting at `pos`.
pub open spec fn scan_radix_end(s: Seq<char>, pos: int, base: u32) -> int
    decreases s.len() - pos,
{
    if 0 <= pos < s.len() && is_radix_digit(s[pos], base) {
        scan_radix_end(s, pos + 1, base)
    } else {
        pos
    }
}

/// The index just past the maximal run of decimal digits and dots at `pos`.
pub open spec fn scan_dec_end(s: Seq<char>, pos: int) -> int
    decreases s.len() - pos,
{
    if 0 <= pos < s.len() && (is_dec_digit(s[pos]) || s[pos] == '.') {
        scan_dec_end(s, pos + 1)
    } else {
        pos
    }
}

/// The index just past the maximal run of identifier characters at `pos`.
pub open spec fn scan_ident_end(s: Seq<char>, pos: int) -> int
    decreases s.len() - pos,
{
    if 0 <= pos < s.len() && is_ident_char(s[pos]) {
        scan_ident_end(s, pos + 1)
    } else {
        pos
    }
}

/// The index just past the maximal run of non-newline characters at `pos`.
pub open spec fn scan_line_end(s: Seq<char>, pos: int) -> int
    decreases s.len() - pos,
{
    if 0 <= pos < s.len() && s[pos] != '\n' {
        scan_line_end(s, pos + 1)
    } else {
        pos
    }
}

proof fn lemma_skip_ws_end_bounds(s: Seq<char>, pos: int)
    requires
        0 <= pos <= s.len(),
    ensures
        pos <= skip_ws_end(s, pos) <= s.len(),
    decreases s.len() - pos,
{
    if pos < s.len() && char_is_whitespace(s[pos]) {
        lemma_skip_ws_end_bounds(s, pos + 1);
    }
}

proof fn lemma_scan_radix_end_bounds(s: Seq<char>, pos: int, base: u32)
    requires
        0 <= pos <= s.len(),
    ensures
        pos <= scan_radix_end(s, pos, base) <= s.len(),
    decreases s.len() - pos,
{
    if pos < s.len() && is_radix_digit(s[pos], base) {
        lemma_scan_radix_end_bounds(s, pos + 1, base);
    }
}

proof fn lemma_scan_dec_end_bounds(s: Seq<char>, pos: int)
    requires
        0 <= pos <= s.len(),
    ensures
        pos <= scan_dec_end(s, pos) <= s.len(),
    decreases s.len() - pos,
{
    if pos < s.len() && (is_dec_digit(s[pos]) || s[pos] == '.') {
        lemma_scan_dec_end_bounds(s, pos + 1);
    }
}

proof fn lemma_scan_ident_end_bounds(s: Seq<char>, pos: int)
    requires
        0 <= pos <= s.len(),
    ensures
        pos <= scan_ident_end(s, pos) <= s.len(),
    decreases s.len() - pos,
{
    if pos < s.len() && is_ident_char(s[pos]) {
        lemma_scan_ident_end_bounds(s, pos + 1);
    }
}

proof fn lemma_scan_line_end_bounds(s: Seq<char>, pos: int)
    requires
        0 <= pos <= s.len(),
    ensures
        pos <= scan_line_end(s, pos) <= s.len(),
    decreases s.len() - pos,
{
    if pos < s.len() && s[pos] != '\n' {
        lemma_scan_line_end_bounds(s, pos + 1);
    }
}

// ---------------------------------------------------------------------------
// Lexer errors
// ---------------------------------------------------------------------------

/// Why a numeric literal was refused.
#[derive(Debug, Clone, Copy, PartialEq, Eq, Structural)]
pub enum LexErrorKind {
    /// A radix prefix with no digits of that radix after it.
    MalformedInteger,
    /// An integer literal whose value does not fit 32 bits.
    IntegerOutOfRange,
    /// A digit run with more than one `.` in it.
    MalformedFloat,
}

/// A fatal lexical error, positioned at the start of the offending literal.
#[derive(Debug, Clone, Copy, PartialEq, Eq, Structural)]
pub struct LexError {
    pub kind: LexErrorKind,
    pub line: usize,
    pub column: usize,
}

/// The text `LexError::message` renders for each kind of error.
pub open spec fn spec_lex_message(kind: LexErrorKind) -> Seq<char> {
    match kind {
        LexErrorKind::MalformedInteger => "malformed integer literal"@,
        LexErrorKind::IntegerOutOfRange => "integer literal out of range"@,
        LexErrorKind::MalformedFloat => "malformed float literal"@,
    }
}

impl LexError {
    /// A human-readable description of the error.
    pub fn message(&self) -> (r: &'static str)
        ensures
            r@ == spec_lex_message(self.kind),
    {
        match self.kind {
            LexErrorKind::MalformedInteger => "malformed integer literal",
            LexErrorKind::IntegerOutOfRange => "integer literal out of range",
            LexErrorKind::MalformedFloat => "malformed float literal",
        }
    }
}

// ---------------------------------------------------------------------------
// Numeric and identifier tokens
// ---------------------------------------------------------------------------

/// How many times `c` occurs in `s`.
pub open spec fn count_char(s: Seq<char>, c: char) -> nat
    decreases s.len(),
{
    if s.len() == 0 {
        0
    } else {
        count_char(s.drop_last(), c) + if s.last() == c {
            1nat
        } else {
            0nat
        }
    }
}

/// The error raised for the literal that starts at `pos`.
pub open spec fn lex_err_at(s: Seq<char>, pos: int, kind: LexErrorKind) -> LexError {
    LexError { kind, line: line_of(s, pos) as usize, column: col_of(s, pos) as usize }
}

/// The token produced by a digit run of the given radix starting at `dstart`,
/// or the error it raises.  `tok_pos` is where the whole literal started.
pub open spec fn spec_radix_int(s: Seq<char>, dstart: int, base: u32, tok_pos: int) -> Result<
    (LiteralView, int),
    LexError,
> {
    let end = scan_radix_end(s, dstart, base);
    let digits = s.subrange(dstart, end);
    if digits.len() == 0 {
        Err(lex_err_at(s, tok_pos, LexErrorKind::MalformedInteger))
    } else if digits_value(digits, base) > u32::MAX {
        Err(lex_err_at(s, tok_pos, LexErrorKind::IntegerOutOfRange))
    } else {
        Ok((LiteralView::Integer(digits_value(digits, base) as u32), end))
    }
}

/// The token produced by a decimal digit run (dots allowed) at `pos`: an
/// integer when no dot occurs, a float keeping the digit text when one does.
pub open spec fn spec_decimal(s: Seq<char>, pos: int) -> Result<(LiteralView, int), LexError> {
    let end = scan_dec_end(s, pos);
    let text = s.subrange(pos, end);
    if count_char(text, '.') == 0 {
        if digits_value(text, 10) > u32::MAX {
            Err(lex_err_at(s, pos, LexErrorKind::IntegerOutOfRange))
        } else {
            Ok((LiteralView::Integer(digits_value(text, 10) as u32), end))
        }
    } else if count_char(text, '.') == 1 {
        Ok((LiteralView::Float(text), end))
    } else {
        Err(lex_err_at(s, pos, LexErrorKind::MalformedFloat))
    }
}

/// What a numeric literal starting at `pos` lexes to: a `0x`/`0b`/`0d` prefix
/// selects the radix, otherwise the run is decimal, a dot making it a float.
/// The decoded integer value equals the mathematical value of the digits.
pub open spec fn spec_lex_numeric(s: Seq<char>, pos: int) -> Result<(LiteralView, int), LexError> {
    if pos + 1 < s.len() && s[pos] == '0' && s[pos + 1] == 'x' {
        spec_radix_int(s, pos + 2, 16, pos)
    } else if pos + 1 < s.len() && s[pos] == '0' && s[pos + 1] == 'b' {
        spec_radix_int(s, pos + 2, 2, pos)
    } else if pos + 1 < s.len() && s[pos] == '0' && s[pos + 1] == 'd' {
        spec_radix_int(s, pos + 2, 10, pos)
    } else {
        spec_decimal(s, pos)
    }
}

/// What an identifier or keyword is lexed as: the maximal identifier run,
/// matched against the fixed keyword, type-name and boolean-literal table.
pub open spec fn keyword_or_ident_view(name: Seq<char>) -> TokenKindView {
    if name == "let"@ {
        TokenKindView::Keyword(Keyword::Let)
    } else if name == "function"@ {
        TokenKindView::Keyword(Keyword::Function)
    } else if name == "if"@ {
        TokenKindView::Keyword(Keyword::If)
    } else if name == "else"@ {
        TokenKindView::Keyword(Keyword::Else)
    } else if name == "for"@ {
        TokenKindView::Keyword(Keyword::For)
    } else if name == "return"@ {
        TokenKindView::Keyword(Keyword::Return)
    } else if name == "int"@ {
        TokenKindView::TypeIdentifier(TypeIdentifier::Number)
    } else if name == "bool"@ {
        TokenKindView::TypeIdentifier(TypeIdentifier::Boolean)
    } else if name == "char"@ {
        TokenKindView::TypeIdentifier(TypeIdentifier::Char)
    } else if name == "true"@ {
        TokenKindView::Literal(LiteralView::Boolean(true))
    } else if name == "false"@ {
        TokenKindView::Literal(LiteralView::Boolean(false))
    } else {
        TokenKindView::Identifier(name)
    }
}

pub proof fn lemma_digits_value_prefix(s: Seq<char>, i: int, base: u32)
    requires
        0 <= i <= s.len(),
        base >= 1,
    ensures
        digits_value(s.take(i), base) <= digits_value(s, base),
    decreases s.len(),
{
    if i == s.len() {
        assert(s.take(i) =~= s);
    } else {
        assert(s.take(i) =~= s.drop_last().take(i));
        lemma_digits_value_prefix(s.drop_last(), i, base);
        let v = digits_value(s.drop_last(), base);
        assert(v * 1 <= v * (base as nat)) by (nonlinear_arith)
            requires base >= 1;
    }
}

fn dec_digit(c: char) -> (r: bool)
    ensures
        r == is_dec_digit(c),
{
    let u = c as u32;
    48 <= u && u <= 57
}

fn radix_digit(c: char, base: u32) -> (r: bool)
    ensures
        r == is_radix_digit(c, base),
{
    let u = c as u32;
    if base == 2 {
        c == '0' || c == '1'
    } else if base == 16 {
        (48 <= u && u <= 57) || (97 <= u && u <= 102) || (65 <= u && u <= 70)
    } else {
        48 <= u && u <= 57
    }
}

/// The numeric value of a digit character; zero for anything else.
fn digit_val(c: char) -> (r: u32)
    ensures
        r as nat == digit_value(c),
        r < 16,
{
    let u = c as u32;
    if 48 <= u && u <= 57 {
        u - 48
    } else if 97 <= u && u <= 102 {
        u - 87
    } else if 65 <= u && u <= 70 {
        u - 55
    } else {
        0
    }
}

impl Lexer {
    /// Whether the character under the cursor is exactly `c`.
    fn peek_is(&self, c: char) -> (r: bool)
        requires
            self.wf(),
        ensures
            r == (self.pos() < self.src().len() && self.src()[self.pos()] == c),
    {
        if self.position < self.chars.len() {
            self.chars[self.position] == c
        } else {
            false
        }
    }

    /// The character under the cursor.
    fn cur_char(&self) -> (c: char)
        requires
            self.wf(),
            self.pos() < self.src().len(),
        ensures
            c == self.src()[self.pos()],
    {
        self.chars[self.position]
    }

    /// Consume a run of digits of the given radix and decode its value.
    /// `tok_pos` is where the literal started; errors point there.
    fn lex_radix_int(&mut self, base: u32, tok_line: usize, tok_col: usize, Ghost(tok_pos): Ghost<
        int,
    >) -> (r: Result<u32, LexError>)
        requires
            old(self).wf(),
            base == 2 || base == 10 || base == 16,
            0 <= tok_pos <= old(self).pos(),
            tok_line as int == line_of(old(self).src(), tok_pos),
            tok_col as int == col_of(old(self).src(), tok_pos),
        ensures
            final(self).wf(),
            final(self).src() == old(self).src(),
            r.is_ok() ==> old(self).pos() < final(self).pos(),
            match (r, spec_radix_int(old(self).src(), old(self).pos(), base, tok_pos)) {
                (Ok(v), Ok((lv, end))) => lv == LiteralView::Integer(v) && final(self).pos() == end,
                (Err(e), Err(se)) => e == se,
                _ => false,
            },
    {
        let ghost s = self.src();
        let ghost dstart = self.pos();
        proof {
            lemma_scan_radix_end_bounds(s, dstart, base);
        }
        let ghost end = scan_radix_end(s, dstart, base);
        let mut val: u64 = 0;
        let mut any: bool = false;
        loop
            invariant
                self.wf(),
                self.src() == s,
                s == old(self).src(),
                dstart == old(self).pos(),
                0 <= tok_pos <= dstart <= self.pos() <= s.len(),
                tok_line as int == line_of(s, tok_pos),
                tok_col as int == col_of(s, tok_pos),
                end == scan_radix_end(s, dstart, base),
                scan_radix_end(s, self.pos(), base) == end,
                dstart <= end <= s.len(),
                base == 2 || base == 10 || base == 16,
                any == (self.pos() > dstart),
                val == digits_value(s.subrange(dstart, self.pos()), base),
                val <= u32::MAX,
            ensures
                self.wf(),
                self.src() == s,
                self.pos() == end,
                any == (end > dstart),
                val == digits_value(s.subrange(dstart, end), base),
                val <= u32::MAX,
            decreases s.len() - self.pos(),
        {
            match self.peek() {
                Some(c) => {
                    if radix_digit(c, base) {
                        let ghost before = self.pos();
                        proof {
                            assert(dstart <= before < s.len());
                            assert(c == s[before]);
                        }
                        self.bump();
                        let d = digit_val(c);
                        proof {
                            assert(val <= u32::MAX && base <= 16);
                            assert(val * (base as u64) <= u32::MAX as u64 * 16) by (nonlinear_arith)
                                requires val <= u32::MAX as u64, base <= 16u32;
                        }
                        let next: u64 = val * (base as u64) + (d as u64);
                        proof {
                            assert(s.subrange(dstart, before + 1).drop_last() =~= s.subrange(
                                dstart,
                                before,
                            ));
                            assert(s.subrange(dstart, before + 1).last() == c);
                        }
                        if next > u32::MAX as u64 {
                            proof {
                                lemma_scan_radix_end_bounds(s, before + 1, base);
                                let full = s.subrange(dstart, end);
                                assert(full.take(before + 1 - dstart) =~= s.subrange(
                                    dstart,
                                    before + 1,
                                ));
                                lemma_digits_value_prefix(full, before + 1 - dstart, base);
                            }
                            return Err(
                                LexError {
                                    kind: LexErrorKind::IntegerOutOfRange,
                                    line: tok_line,
                                    column: tok_col,
                                },
                            );
                        }
                        val = next;
                        any = true;
                    } else {
                        break;
                    }
                },
                None => {
                    break;
                },
            }
        }
        if !any {
            return Err(
                LexError { kind: LexErrorKind::MalformedInteger, line: tok_line, column: tok_col },
            );
        }
        Ok(val as u32)
    }

    /// Consume a decimal digit run (dots included) starting at the cursor and
    /// decode it: an integer when no dot occurs, a float keeping the digit
    /// text when one does.
    fn lex_decimal(&mut self) -> (r: Result<Literal, LexError>)
        requires
            old(self).wf(),
            old(self).pos() < old(self).src().len(),
            is_dec_digit(old(self).src()[old(self).pos()]),
        ensures
            final(self).wf(),
            final(self).src() == old(self).src(),
            r.is_ok() ==> old(self).pos() < final(self).pos(),
            match (r, spec_decimal(old(self).src(), old(self).pos())) {
                (Ok(lit), Ok((lv, end))) => lit@ == lv && final(self).pos() == end,
                (Err(e), Err(se)) => e == se,
                _ => false,
            },
    {
        let ghost s = self.src();
        let ghost p0 = self.pos();
        let tok_line = self.line;
        let tok_col = self.column;
        proof {
            lemma_scan_dec_end_bounds(s, p0);
            lemma_scan_dec_end_bounds(s, p0 + 1);
        }
        let ghost end = scan_dec_end(s, p0);
        proof {
            assert(end == scan_dec_end(s, p0 + 1));
            assert(end >= p0 + 1);
        }
        let mut text: Vec<char> = Vec::new();
        let mut dots: usize = 0;
        loop
            invariant
                self.wf(),
                self.src() == s,
                s == old(self).src(),
                p0 == old(self).pos(),
                0 <= p0 <= self.pos() <= s.len(),
                tok_line as int == line_of(s, p0),
                tok_col as int == col_of(s, p0),
                end == scan_dec_end(s, p0),
                scan_dec_end(s, self.pos()) == end,
                p0 <= end <= s.len(),
                text@ == s.subrange(p0, self.pos()),
                dots == count_char(text@, '.'),
                dots <= text@.len(),
            ensures
                self.wf(),
                self.src() == s,
                self.pos() == end,
                text@ == s.subrange(p0, end),
                dots == count_char(text@, '.'),
            decreases s.len() - self.pos(),
        {
            match self.peek() {
                Some(c) => {
                    if dec_digit(c) || c == '.' {
                        let ghost before = self.pos();
                        self.bump();
                        text.push(c);
                        if c == '.' {
                            dots = dots + 1;
                        }
                        proof {
                            assert(text@.drop_last() =~= s.subrange(p0, before));
                            assert(text@ =~= s.subrange(p0, before + 1));
                        }
                    } else {
                        break;
                    }
                },
                None => {
                    break;
                },
            }
        }
        if dots == 0 {
            let mut val: u64 = 0;
            let mut i: usize = 0;
            while i < text.len()
                invariant
                    self.wf(),
                    self.src() == old(self).src(),
                    s == old(self).src(),
                    p0 == old(self).pos(),
                    0 <= p0 <= s.len(),
                    tok_line as int == line_of(s, p0),
                    tok_col as int == col_of(s, p0),
                    end == scan_dec_end(s, p0),
                    self.pos() == end,
                    text@ == s.subrange(p0, end),
                    count_char(text@, '.') == 0,
                    i <= text@.len(),
                    val == digits_value(text@.take(i as int), 10),
                    val <= u32::MAX,
                decreases text@.len() - i,
            {
                let d = digit_val(text[i]);
                let next: u64 = val * 10 + (d as u64);
                proof {
                    assert(text@.take(i + 1).drop_last() =~= text@.take(i as int));
                    assert(text@.take(i + 1).last() == text@[i as int]);
                }
                if next > u32::MAX as u64 {
                    proof {
                        lemma_digits_value_prefix(text@, i + 1, 10);
                    }
                    return Err(
                        LexError {
                            kind: LexErrorKind::IntegerOutOfRange,
                            line: tok_line,
                            column: tok_col,
                        },
                    );
                }
                val = next;
                i = i + 1;
            }
            proof {
                assert(text@.take(text@.len() as int) =~= text@);
            }
            Ok(Literal::Integer(val as u32))
        } else if dots == 1 {
            let string = string_of_chars(&text);
            Ok(Literal::Float(string))
        } else {
            Err(LexError { kind: LexErrorKind::MalformedFloat, line: tok_line, column: tok_col })
        }
    }

    /// Lex one numeric literal starting at the cursor.  A `0x`/`0b`/`0d`
    /// prefix selects hexadecimal, binary or decimal; otherwise the run is
    /// decimal and a `.` makes it a float.  The decoded integer equals the
    /// mathematical value of the digit string in the selected radix.
    fn lex_numeric(&mut self) -> (r: Result<Literal, LexError>)
        requires
            old(self).wf(),
            old(self).pos() < old(self).src().len(),
            is_dec_digit(old(self).src()[old(self).pos()]),
        ensures
            final(self).wf(),
            final(self).src() == old(self).src(),
            r.is_ok() ==> old(self).pos() < final(self).pos(),
            match (r, spec_lex_numeric(old(self).src(), old(self).pos())) {
                (Ok(lit), Ok((lv, end))) => lit@ == lv && final(self).pos() == end,
                (Err(e), Err(se)) => e == se,
                _ => false,
            },
    {
        let ghost s = self.src();
        let ghost p0 = self.pos();
        let tok_line = self.line;
        let tok_col = self.column;
        let first = self.cur_char();
        if first == '0' {
            let has_radix_prefix = if self.position + 1 < self.chars.len() {
                let second = self.chars[self.position + 1];
                second == 'x' || second == 'b' || second == 'd'
            } else {
                false
            };
            if has_radix_prefix {
                let second = self.chars[self.position + 1];
                self.bump();
                self.bump();
                let base: u32 = if second == 'x' {
                    16
                } else if second == 'b' {
                    2
                } else {
                    10
                };
                match self.lex_radix_int(base, tok_line, tok_col, Ghost(p0)) {
                    Ok(v) => Ok(Literal::Integer(v)),
                    Err(e) => Err(e),
                }
            } else {
                self.lex_decimal()
            }
        } else {
            self.lex_decimal()
        }
    }

    /// Lex the maximal identifier run at the cursor, mapping it through the
    /// keyword, type-name and boolean-literal table.  The first character is
    /// taken unconditionally; the rest of the run is alphanumeric or `_`.
    fn lex_identifier_or_keyword(&mut self) -> (kind: TokenKind)
        requires
            old(self).wf(),
            old(self).pos() < old(self).src().len(),
        ensures
            final(self).wf(),
            final(self).src() == old(self).src(),
            old(self).pos() < final(self).pos(),
            final(self).pos() == scan_ident_end(old(self).src(), old(self).pos() + 1),
            kind@ == keyword_or_ident_view(
                old(self).src().subrange(
                    old(self).pos(),
                    scan_ident_end(old(self).src(), old(self).pos() + 1),
                ),
            ),
    {
        let ghost s = self.src();
        let ghost p0 = self.pos();
        proof {
            lemma_scan_ident_end_bounds(s, p0 + 1);
        }
        let ghost end = scan_ident_end(s, p0 + 1);
        let mut name = String::new();
        let first = self.cur_char();
        self.bump();
        push_char(&mut name, first);
        proof {
            assert(name@ =~= s.subrange(p0, p0 + 1));
        }
        loop
            invariant
                self.wf(),
                self.src() == s,
                s == old(self).src(),
                p0 == old(self).pos(),
                0 <= p0 < p0 + 1 <= self.pos() <= s.len(),
                end == scan_ident_end(s, p0 + 1),
                scan_ident_end(s, self.pos()) == end,
                p0 + 1 <= end <= s.len(),
                name@ == s.subrange(p0, self.pos()),
            ensures
                self.wf(),
                self.src() == s,
                self.pos() == end,
                name@ == s.subrange(p0, end),
            decreases s.len() - self.pos(),
        {
            match self.peek() {
                Some(c) => {
                    if is_alphanumeric_char(c) || c == '_' {
                        let ghost before = self.pos();
                        self.bump();
                        push_char(&mut name, c);
                        proof {
                            assert(name@ =~= s.subrange(p0, before + 1));
                        }
                    } else {
                        break;
                    }
                },
                None => {
                    break;
                },
            }
        }
        if name == String::from_str("let") {
            TokenKind::Keyword(Keyword::Let)
        } else if name == String::from_str("function") {
            TokenKind::Keyword(Keyword::Function)
        } else if name == String::from_str("if") {
            TokenKind::Keyword(Keyword::If)
        } else if name == String::from_str("else") {
            TokenKind::Keyword(Keyword::Else)
        } else if name == String::from_str("for") {
            TokenKind::Keyword(Keyword::For)
        } else if name == String::from_str("return") {
            TokenKind::Keyword(Keyword::Return)
        } else if name == String::from_str("int") {
            TokenKind::TypeIdentifier(TypeIdentifier::Number)
        } else if name == String::from_str("bool") {
            TokenKind::TypeIdentifier(TypeIdentifier::Boolean)
        } else if name == String::from_str("char") {
            TokenKind::TypeIdentifier(TypeIdentifier::Char)
        } else if name == String::from_str("true") {
            TokenKind::Literal(Literal::Boolean(true))
        } else if name == String::from_str("false") {
            TokenKind::Literal(Literal::Boolean(false))
        } else {
            TokenKind::Identifier(name)
        }
    }
}


// ---------------------------------------------------------------------------
// One token, and the whole stream
// ---------------------------------------------------------------------------

proof fn lemma_skip_ws_idem(s: Seq<char>, pos: int)
    ensures
        skip_ws_end(s, skip_ws_end(s, pos)) == skip_ws_end(s, pos),
    decreases s.len() - pos,
{
    if 0 <= pos < s.len() && char_is_whitespace(s[pos]) {
        lemma_skip_ws_idem(s, pos + 1);
    }
}

/// One classification step, after whitespace has been skipped.
pub enum LexStepView {
    /// A token, and the cursor just past it.
    Tok(TokenView, int),
    /// End of input.
    End,
    /// A `//` comment; the cursor to resume from.
    Note(int),
    /// A fatal numeric error.
    Fail(LexError),
}

/// What the character under the cursor (at `p1`, whitespace already skipped)
/// classifies as.  Single characters with two-character extensions are
/// resolved by one character of lookahead.
pub open spec fn spec_lex_step(s: Seq<char>, p1: int) -> LexStepView {
    if !(0 <= p1 < s.len()) {
        LexStepView::End
    } else {
        let line = line_of(s, p1) as usize;
        let column = col_of(s, p1) as usize;
        let c = s[p1];
        let two = p1 + 1 < s.len();
        if c == '=' {
            if two && s[p1 + 1] == '=' {
                LexStepView::Tok(
                    TokenView { kind: TokenKindView::Operator(Operator::Equals), line, column },
                    p1 + 2,
                )
            } else {
                LexStepView::Tok(
                    TokenView { kind: TokenKindView::Operator(Operator::Assign), line, column },
                    p1 + 1,
                )
            }
        } else if c == '!' {
            if two && s[p1 + 1] == '=' {
                LexStepView::Tok(
                    TokenView { kind: TokenKindView::Operator(Operator::Different), line, column },
                    p1 + 2,
                )
            } else {
                LexStepView::Tok(
                    TokenView { kind: TokenKindView::Operator(Operator::Not), line, column },
                    p1 + 1,
                )
            }
        } else if c == '>' {
            if two && s[p1 + 1] == '=' {
                LexStepView::Tok(
                    TokenView {
                        kind: TokenKindView::Operator(Operator::GreaterEqual),
                        line,
                        column,
                    },
                    p1 + 2,
                )
            } else {
                LexStepView::Tok(
                    TokenView { kind: TokenKindView::Operator(Operator::GreaterThan), line, column },
                    p1 + 1,
                )
            }
        } else if c == '<' {
            if two && s[p1 + 1] == '=' {
                LexStepView::Tok(
                    TokenView { kind: TokenKindView::Operator(Operator::LesserEqual), line, column },
                    p1 + 2,
                )
            } else {
                LexStepView::Tok(
                    TokenView { kind: TokenKindView::Operator(Operator::LesserThan), line, column },
                    p1 + 1,
                )
            }
        } else if c == '+' {
            if two && s[p1 + 1] == '+' {
                LexStepView::Tok(
                    TokenView { kind: TokenKindView::Operator(Operator::Increment), line, column },
                    p1 + 2,
                )
            } else {
                LexStepView::Tok(
                    TokenView { kind: TokenKindView::Operator(Operator::Plus), line, column },
                    p1 + 1,
                )
            }
        } else if c == '-' {
            if two && s[p1 + 1] == '-' {
                LexStepView::Tok(
                    TokenView { kind: TokenKindView::Operator(Operator::Decrement), line, column },
                    p1 + 2,
                )
            } else {
                LexStepView::Tok(
                    TokenView { kind: TokenKindView::Operator(Operator::Minus), line, column },
                    p1 + 1,
                )
            }
        } else if c == '*' {
            LexStepView::Tok(
                TokenView { kind: TokenKindView::Operator(Operator::Multiply), line, column },
                p1 + 1,
            )
        } else if c == '/' {
            if two && s[p1 + 1] == '/' {
                LexStepView::Note(scan_line_end(s, p1 + 2))
            } else {
                LexStepView::Tok(
                    TokenView { kind: TokenKindView::Operator(Operator::Divide), line, column },
                    p1 + 1,
                )
            }
        } else if c == '&' {
            if two && s[p1 + 1] == '&' {
                LexStepView::Tok(
                    TokenView { kind: TokenKindView::Operator(Operator::And), line, column },
                    p1 + 2,
                )
            } else {
                LexStepView::Tok(
                    TokenView { kind: TokenKindView::Unknown('&'), line, column },
                    p1 + 1,
                )
            }
        } else if c == '|' {
            if two && s[p1 + 1] == '|' {
                LexStepView::Tok(
                    TokenView { kind: TokenKindView::Operator(Operator::Or), line, column },
                    p1 + 2,
                )
            } else {
                LexStepView::Tok(
                    TokenView { kind: TokenKindView::Unknown('|'), line, column },
                    p1 + 1,
                )
            }
        } else if c == '(' {
            LexStepView::Tok(
                TokenView { kind: TokenKindView::Punctuation(Punctuation::OpenParen), line, column },
                p1 + 1,
            )
        } else if c == ')' {
            LexStepView::Tok(
                TokenView {
                    kind: TokenKindView::Punctuation(Punctuation::CloseParen),
                    line,
                    column,
                },
                p1 + 1,
            )
        } else if c == '{' {
            LexStepView::Tok(
                TokenView { kind: TokenKindView::Punctuation(Punctuation::OpenCurly), line, column },
                p1 + 1,
            )
        } else if c == '}' {
            LexStepView::Tok(
                TokenView {
                    kind: TokenKindView::Punctuation(Punctuation::CloseCurly),
                    line,
                    column,
                },
                p1 + 1,
            )
        } else if c == ',' {
            LexStepView::Tok(
                TokenView { kind: TokenKindView::Punctuation(Punctuation::Comma), line, column },
                p1 + 1,
            )
        } else if c == ';' {
            LexStepView::Tok(
                TokenView { kind: TokenKindView::Punctuation(Punctuation::Semicolon), line, column },
                p1 + 1,
            )
        } else if c == ':' {
            LexStepView::Tok(
                TokenView { kind: TokenKindView::Punctuation(Punctuation::Colon), line, column },
                p1 + 1,
            )
        } else if c == '\'' {
            if !(p1 + 2 < s.len()) {
                LexStepView::End
            } else if s[p1 + 2] != '\'' {
                LexStepView::Tok(
                    TokenView { kind: TokenKindView::Unknown(s[p1 + 1]), line, column },
                    p1 + 3,
                )
            } else {
                LexStepView::Tok(
                    TokenView {
                        kind: TokenKindView::Literal(LiteralView::Character(s[p1 + 1])),
                        line,
                        column,
                    },
                    p1 + 3,
                )
            }
        } else if is_dec_digit(c) {
            match spec_lex_numeric(s, p1) {
                Ok((lv, end)) => LexStepView::Tok(
                    TokenView { kind: TokenKindView::Literal(lv), line, column },
                    end,
                ),
                Err(e) => LexStepView::Fail(e),
            }
        } else if char_is_alphabetic(c) {
            let end = scan_ident_end(s, p1 + 1);
            LexStepView::Tok(
                TokenView { kind: keyword_or_ident_view(s.subrange(p1, end)), line, column },
                end,
            )
        } else {
            LexStepView::Tok(
                TokenView { kind: TokenKindView::Unknown(c), line, column },
                p1 + 1,
            )
        }
    }
}

/// What one lexing step yields from position `pos`: `None` at end of input,
/// a token and the cursor past it, or a fatal numeric error.  Whitespace is
/// skipped first; a `//` comment runs to the next newline and yields nothing.
pub open spec fn spec_lex_token(s: Seq<char>, pos: int) -> Result<
    Option<(TokenView, int)>,
    LexError,
>
    decreases s.len() - pos,
{
    let p1 = skip_ws_end(s, pos);
    match spec_lex_step(s, p1) {
        LexStepView::End => Ok(None),
        LexStepView::Tok(tv, end) => Ok(Some((tv, end))),
        LexStepView::Fail(e) => Err(e),
        LexStepView::Note(p2) => if pos < p2 && p2 <= s.len() {
            spec_lex_token(s, p2)
        } else {
            Ok(None)
        },
    }
}

/// The whole token stream from `pos`, or the first fatal error.
pub open spec fn spec_tokenize(s: Seq<char>, pos: int) -> Result<Seq<TokenView>, LexError>
    decreases s.len() - pos,
{
    match spec_lex_token(s, pos) {
        Err(e) => Err(e),
        Ok(None) => Ok(Seq::empty()),
        Ok(Some((tv, p2))) => if pos < p2 && p2 <= s.len() {
            match spec_tokenize(s, p2) {
                Err(e) => Err(e),
                Ok(rest) => Ok(seq![tv] + rest),
            }
        } else {
            Ok(seq![tv])
        },
    }
}

/// One classification step of the lexer, as executable data.
enum LexStep {
    Tok(Token),
    End,
    Note,
    Fail(LexError),
}

impl Lexer {
    /// Consume everything up to (not including) the next newline.
    fn skip_to_newline(&mut self)
        requires
            old(self).wf(),
        ensures
            final(self).wf(),
            final(self).src() == old(self).src(),
            final(self).pos() == scan_line_end(old(self).src(), old(self).pos()),
    {
        loop
            invariant
                self.wf(),
                self.src() == old(self).src(),
                scan_line_end(self.src(), self.pos()) == scan_line_end(
                    old(self).src(),
                    old(self).pos(),
                ),
            ensures
                self.wf(),
                self.src() == old(self).src(),
                self.pos() == scan_line_end(old(self).src(), old(self).pos()),
            decreases self.src().len() - self.pos(),
        {
            match self.peek() {
                Some(c) => {
                    if c != '\n' {
                        self.bump();
                    } else {
                        break;
                    }
                },
                None => {
                    break;
                },
            }
        }
    }

    /// Classify what the cursor stands on (whitespace already skipped).
    #[verifier::rlimit(100)]
    fn lex_step(&mut self) -> (r: LexStep)
        requires
            old(self).wf(),
        ensures
            final(self).wf(),
            final(self).src() == old(self).src(),
            match (r, spec_lex_step(old(self).src(), old(self).pos())) {
                (LexStep::Tok(t), LexStepView::Tok(tv, end)) => t@ == tv && final(self).pos() == end
                    && old(self).pos() < end <= old(self).src().len(),
                (LexStep::End, LexStepView::End) => true,
                (LexStep::Note, LexStepView::Note(p2)) => final(self).pos() == p2 && old(self).pos()
                    < p2 <= old(self).src().len(),
                (LexStep::Fail(e), LexStepView::Fail(se)) => e == se,
                _ => false,
            },
    {
        let ghost s = self.src();
        let ghost p1 = self.pos();
        let tok_line = self.line;
        let tok_col = self.column;
        let c = match self.peek() {
            Some(c) => c,
            None => {
                return LexStep::End;
            },
        };
        proof {
            lemma_line_col_bounds(s, p1);
        }
        if c == '=' {
            self.bump();
            if self.peek_is('=') {
                self.bump();
                LexStep::Tok(Token::new(TokenKind::Operator(Operator::Equals), tok_line, tok_col))
            } else {
                LexStep::Tok(Token::new(TokenKind::Operator(Operator::Assign), tok_line, tok_col))
            }
        } else if c == '!' {
            self.bump();
            if self.peek_is('=') {
                self.bump();
                LexStep::Tok(
                    Token::new(TokenKind::Operator(Operator::Different), tok_line, tok_col),
                )
            } else {
                LexStep::Tok(Token::new(TokenKind::Operator(Operator::Not), tok_line, tok_col))
            }
        } else if c == '>' {
            self.bump();
            if self.peek_is('=') {
                self.bump();
                LexStep::Tok(
                    Token::new(TokenKind::Operator(Operator::GreaterEqual), tok_line, tok_col),
                )
            } else {
                LexStep::Tok(
                    Token::new(TokenKind::Operator(Operator::GreaterThan), tok_line, tok_col),
                )
            }
        } else if c == '<' {
            self.bump();
            if self.peek_is('=') {
                self.bump();
                LexStep::Tok(
                    Token::new(TokenKind::Operator(Operator::LesserEqual), tok_line, tok_col),
                )
            } else {
                LexStep::Tok(
                    Token::new(TokenKind::Operator(Operator::LesserThan), tok_line, tok_col),
                )
            }
        } else if c == '+' {
            self.bump();
            if self.peek_is('+') {
                self.bump();
                LexStep::Tok(
                    Token::new(TokenKind::Operator(Operator::Increment), tok_line, tok_col),
                )
            } else {
                LexStep::Tok(Token::new(TokenKind::Operator(Operator::Plus), tok_line, tok_col))
            }
        } else if c == '-' {
            self.bump();
            if self.peek_is('-') {
                self.bump();
                LexStep::Tok(
                    Token::new(TokenKind::Operator(Operator::Decrement), tok_line, tok_col),
                )
            } else {
                LexStep::Tok(Token::new(TokenKind::Operator(Operator::Minus), tok_line, tok_col))
            }
        } else if c == '*' {
            self.bump();
            LexStep::Tok(Token::new(TokenKind::Operator(Operator::Multiply), tok_line, tok_col))
        } else if c == '/' {
            self.bump();
            if self.peek_is('/') {
                self.bump();
                proof {
                    lemma_scan_line_end_bounds(s, p1 + 2);
                }
                self.skip_to_newline();
                LexStep::Note
            } else {
                LexStep::Tok(Token::new(TokenKind::Operator(Operator::Divide), tok_line, tok_col))
            }
        } else if c == '&' {
            self.bump();
            if self.peek_is('&') {
                self.bump();
                LexStep::Tok(Token::new(TokenKind::Operator(Operator::And), tok_line, tok_col))
            } else {
                LexStep::Tok(Token::new(TokenKind::Unknown('&'), tok_line, tok_col))
            }
        } else if c == '|' {
            self.bump();
            if self.peek_is('|') {
                self.bump();
                LexStep::Tok(Token::new(TokenKind::Operator(Operator::Or), tok_line, tok_col))
            } else {
                LexStep::Tok(Token::new(TokenKind::Unknown('|'), tok_line, tok_col))
            }
        } else if c == '(' {
            self.bump();
            LexStep::Tok(
                Token::new(TokenKind::Punctuation(Punctuation::OpenParen), tok_line, tok_col),
            )
        } else if c == ')' {
            self.bump();
            LexStep::Tok(
                Token::new(TokenKind::Punctuation(Punctuation::CloseParen), tok_line, tok_col),
            )
        } else if c == '{' {
            self.bump();
            LexStep::Tok(
                Token::new(TokenKind::Punctuation(Punctuation::OpenCurly), tok_line, tok_col),
            )
        } else if c == '}' {
            self.bump();
            LexStep::Tok(
                Token::new(TokenKind::Punctuation(Punctuation::CloseCurly), tok_line, tok_col),
            )
        } else if c == ',' {
            self.bump();
            LexStep::Tok(Token::new(TokenKind::Punctuation(Punctuation::Comma), tok_line, tok_col))
        } else if c == ';' {
            self.bump();
            LexStep::Tok(
                Token::new(TokenKind::Punctuation(Punctuation::Semicolon), tok_line, tok_col),
            )
        } else if c == ':' {
            self.bump();
            LexStep::Tok(Token::new(TokenKind::Punctuation(Punctuation::Colon), tok_line, tok_col))
        } else if c == '\'' {
            self.bump();
            let ch = match self.bump() {
                Some(ch) => ch,
                None => {
                    return LexStep::End;
                },
            };
            let q = match self.bump() {
                Some(q) => q,
                None => {
                    return LexStep::End;
                },
            };
            if q != '\'' {
                LexStep::Tok(Token::new(TokenKind::Unknown(ch), tok_line, tok_col))
            } else {
                LexStep::Tok(
                    Token::new(TokenKind::Literal(Literal::Character(ch)), tok_line, tok_col),
                )
            }
        } else if dec_digit(c) {
            match self.lex_numeric() {
                Ok(lit) => LexStep::Tok(Token::new(TokenKind::Literal(lit), tok_line, tok_col)),
                Err(e) => LexStep::Fail(e),
            }
        } else if is_alphabetic_char(c) {
            let kind = self.lex_identifier_or_keyword();
            LexStep::Tok(Token::new(kind, tok_line, tok_col))
        } else {
            self.bump();
            LexStep::Tok(Token::new(TokenKind::Unknown(c), tok_line, tok_col))
        }
    }

    /// Lex one token: skip whitespace and comments, then classify what the
    /// cursor stands on.  Returns `None` once the input is exhausted.
    pub fn lex_token(&mut self) -> (r: Result<Option<Token>, LexError>)
        requires
            old(self).wf(),
        ensures
            final(self).wf(),
            final(self).src() == old(self).src(),
            match (r, spec_lex_token(old(self).src(), old(self).pos())) {
                (Ok(Some(t)), Ok(Some((tv, end)))) => t@ == tv && final(self).pos() == end
                    && old(self).pos() < end <= old(self).src().len(),
                (Ok(None), Ok(None)) => true,
                (Err(e), Err(se)) => e == se,
                _ => false,
            },
    {
        let ghost s = self.src();
        let ghost p0 = self.pos();
        loop
            invariant
                self.wf(),
                self.src() == s,
                s == old(self).src(),
                0 <= p0 <= self.pos() <= s.len(),
                p0 == old(self).pos(),
                spec_lex_token(s, self.pos()) == spec_lex_token(s, p0),
            decreases s.len() - self.pos(),
        {
            let ghost iter_pos = self.pos();
            self.skip_whitespace();
            proof {
                lemma_skip_ws_end_bounds(s, iter_pos);
                lemma_skip_ws_idem(s, iter_pos);
            }
            match self.lex_step() {
                LexStep::End => {
                    return Ok(None);
                },
                LexStep::Tok(t) => {
                    return Ok(Some(t));
                },
                LexStep::Fail(e) => {
                    return Err(e);
                },
                LexStep::Note => {
                },
            }
        }
    }

    /// Lex the whole input.  The resulting stream is exactly what
    /// `spec_tokenize` assigns to the text, or its first fatal error.
    pub fn tokenize(&mut self) -> (r: Result<Vec<Token>, LexError>)
        requires
            old(self).wf(),
        ensures
            final(self).wf(),
            match (r, spec_tokenize(old(self).src(), old(self).pos())) {
                (Ok(v), Ok(sv)) => tokens_view(v@) == sv,
                (Err(e), Err(se)) => e == se,
                _ => false,
            },
    {
        let ghost s = self.src();
        let ghost p0 = self.pos();
        let mut out: Vec<Token> = Vec::new();
        loop
            invariant
                self.wf(),
                self.src() == s,
                s == old(self).src(),
                0 <= p0 <= self.pos() <= s.len(),
                p0 == old(self).pos(),
                spec_tokenize(s, p0) == (match spec_tokenize(s, self.pos()) {
                    Ok(rest) => Ok::<Seq<TokenView>, LexError>(tokens_view(out@) + rest),
                    Err(e) => Err(e),
                }),
            decreases s.len() - self.pos(),
        {
            let ghost cur = self.pos();
            match self.lex_token() {
                Err(e) => {
                    return Err(e);
                },
                Ok(None) => {
                    proof {
                        assert(tokens_view(out@) + Seq::<TokenView>::empty() =~= tokens_view(out@));
                    }
                    return Ok(out);
                },
                Ok(Some(t)) => {
                    let ghost out0 = out@;
                    out.push(t);
                    proof {
                        assert(tokens_view(out@) =~= tokens_view(out0) + seq![t@]);
                        assert(tokens_view(out0) + (seq![t@] + (match spec_tokenize(s, self.pos()) {
                            Ok(rest) => rest,
                            Err(_) => Seq::<TokenView>::empty(),
                        })) =~= (tokens_view(out0) + seq![t@]) + (match spec_tokenize(
                            s,
                            self.pos(),
                        ) {
                            Ok(rest) => rest,
                            Err(_) => Seq::<TokenView>::empty(),
                        }));
                    }
                },
            }
        }
    }
}

} // verus!
