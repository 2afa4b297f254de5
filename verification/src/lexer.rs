use vstd::prelude::*;

use crate::tokens::{Keywords, Token, TokenType, TokenView, spec_keyword};
use crate::text::{decimal, decimal_chars, string_to_chars, str_to_chars, append_chars};

verus! {

// ---------------------------------------------------------------------------
// The scanner, as mathematics
// ---------------------------------------------------------------------------

/// The character at `i`, or `'\0'` past either end.
pub open spec fn peek_at(src: Seq<char>, i: int) -> char {
    if 0 <= i < src.len() {
        src[i]
    } else {
        '\0'
    }
}

/// Unicode's `White_Space` property.
pub open spec fn is_whitespace(c: char) -> bool {
    let u = c as u32;
    ||| 0x9 <= u <= 0xD
    ||| u == 0x20
    ||| u == 0x85
    ||| u == 0xA0
    ||| u == 0x1680
    ||| 0x2000 <= u <= 0x200A
    ||| u == 0x2028
    ||| u == 0x2029
    ||| u == 0x202F
    ||| u == 0x205F
    ||| u == 0x3000
}

/// An ASCII decimal digit.
pub open spec fn is_digit(c: char) -> bool {
    '0' <= c <= '9'
}

/// A character that may start an identifier.
pub open spec fn is_ident_start(c: char) -> bool {
    ('a' <= c <= 'z') || ('A' <= c <= 'Z') || c == '_'
}

/// A character that may continue an identifier.
pub open spec fn is_ident_char(c: char) -> bool {
    is_ident_start(c) || is_digit(c)
}

/// How many of the positions `from..to` hold a newline (positions past the end hold none).
pub open spec fn newlines(src: Seq<char>, from: int, to: int) -> nat
    decreases to - from,
{
    if to <= from {
        0
    } else {
        newlines(src, from, to - 1) + (if peek_at(src, to - 1) == '\n' { 1nat } else { 0nat })
    }
}

/// The first position from `i` on whose character is past the end, `'\0'`, or fails `p`.
pub open spec fn skip_while(src: Seq<char>, i: int, p: spec_fn(char) -> bool) -> int
    decreases src.len() - i,
{
    if i < src.len() && peek_at(src, i) != '\0' && p(peek_at(src, i)) {
        skip_while(src, i + 1, p)
    } else {
        i
    }
}

pub open spec fn ws_pred() -> spec_fn(char) -> bool {
    |c: char| is_whitespace(c)
}

pub open spec fn digit_pred() -> spec_fn(char) -> bool {
    |c: char| is_digit(c)
}

pub open spec fn ident_pred() -> spec_fn(char) -> bool {
    |c: char| is_ident_char(c)
}

pub open spec fn not_newline_pred() -> spec_fn(char) -> bool {
    |c: char| c != '\n'
}

pub open spec fn in_string_pred() -> spec_fn(char) -> bool {
    |c: char| c != '"' && c != '\0'
}

/// What a backslash escape stands for in a string literal.
pub open spec fn escaped(c: char) -> Seq<char> {
    if c == 'n' {
        seq!['\n']
    } else if c == 'r' {
        seq!['\r']
    } else if c == 't' {
        seq!['\t']
    } else {
        seq!['\\', c]
    }
}

/// The text of a string literal with its escapes replaced, and whether a backslash is pending.
pub open spec fn unescape(s: Seq<char>) -> (Seq<char>, bool)
    decreases s.len(),
{
    if s.len() == 0 {
        (Seq::empty(), false)
    } else {
        let (out, esc) = unescape(s.drop_last());
        let c = s.last();
        if c == '\\' {
            (out, true)
        } else if esc {
            (out + escaped(c), false)
        } else {
            (out.push(c), false)
        }
    }
}

/// A backslash followed by `n`, `t` or `r` in a string literal stands for exactly one
/// newline, tab or carriage return; a backslash before any other character is kept with it.
pub proof fn law_unescape_escapes(s: Seq<char>, c: char)
    requires
        !unescape(s).1,
        c != '\\',
    ensures
        unescape(s + seq!['\\', 'n']) == (unescape(s).0.push('\n'), false),
        unescape(s + seq!['\\', 't']) == (unescape(s).0.push('\t'), false),
        unescape(s + seq!['\\', 'r']) == (unescape(s).0.push('\r'), false),
        c != 'n' && c != 't' && c != 'r' ==> unescape(s + seq!['\\', c]) == (unescape(s).0 + seq!['\\', c], false),
        unescape(s + seq![c]) == (unescape(s).0.push(c), false),
{
    assert((s + seq!['\\', 'n']).drop_last() =~= s.push('\\'));
    assert((s + seq!['\\', 't']).drop_last() =~= s.push('\\'));
    assert((s + seq!['\\', 'r']).drop_last() =~= s.push('\\'));
    assert((s + seq!['\\', c]).drop_last() =~= s.push('\\'));
    assert(s.push('\\').drop_last() =~= s);
    assert(s.push('\\').last() == '\\');
    assert(unescape(s.push('\\')) == (unescape(s).0, true));
    assert((s + seq!['\\', 'n']).last() == 'n');
    assert((s + seq!['\\', 't']).last() == 't');
    assert((s + seq!['\\', 'r']).last() == 'r');
    assert((s + seq!['\\', c]).last() == c);
    assert((s + seq![c]).drop_last() =~= s);
    assert(unescape(s).0 + seq!['\n'] =~= unescape(s).0.push('\n'));
    assert(unescape(s).0 + seq!['\t'] =~= unescape(s).0.push('\t'));
    assert(unescape(s).0 + seq!['\r'] =~= unescape(s).0.push('\r'));
}

/// A text with no backslash in it is its own unescaped text.
pub proof fn law_unescape_plain(s: Seq<char>)
    requires
        forall|k: int| 0 <= k < s.len() ==> s[k] != '\\',
    ensures
        unescape(s) == (s, false),
    decreases s.len(),
{
    if s.len() > 0 {
        law_unescape_plain(s.drop_last());
        assert(s.drop_last().push(s.last()) =~= s);
    }
}

/// `s` without its leading `'"'` characters.
pub open spec fn strip_leading_quotes(s: Seq<char>) -> Seq<char>
    decreases s.len(),
{
    if s.len() > 0 && s[0] == '"' {
        strip_leading_quotes(s.drop_first())
    } else {
        s
    }
}

/// `s` without its trailing `'"'` characters.
pub open spec fn strip_trailing_quotes(s: Seq<char>) -> Seq<char>
    decreases s.len(),
{
    if s.len() > 0 && s.last() == '"' {
        strip_trailing_quotes(s.drop_last())
    } else {
        s
    }
}

/// `s` without the `'"'` characters at either end.
pub open spec fn trim_quotes(s: Seq<char>) -> Seq<char> {
    strip_trailing_quotes(strip_leading_quotes(s))
}

/// The outcome of scanning one token: the token, where the scanner stands after it,
/// where the token started, and whether the scan would fail.
pub struct ScanStep {
    pub token_type: TokenType,
    pub value: Seq<char>,
    pub start: int,
    pub cur: int,
    pub fails: bool,
}

/// The characters `from..to` of the source.
pub open spec fn text(src: Seq<char>, from: int, to: int) -> Seq<char> {
    src.subrange(from, to)
}

pub open spec fn step(token_type: TokenType, value: Seq<char>, start: int, cur: int) -> ScanStep {
    ScanStep { token_type, value, start, cur, fails: false }
}

pub open spec fn missing_quote_message(line: nat, col: nat) -> Seq<char> {
    "Missing \" at the end of string "@ + decimal(line) + ":"@ + decimal(col)
}

pub open spec fn invalid_char_message(c: char, line: nat, col: nat) -> Seq<char> {
    "Invalid char ("@ + seq![c] + ") "@ + decimal(line) + ":"@ + decimal(col)
}

/// The kind of an operator that may be followed by `=`.
pub open spec fn two_char_type(c: char, with_eq: bool) -> TokenType {
    if c == '!' {
        if with_eq { TokenType::INTERJ_EQ } else { TokenType::INTERJ }
    } else if c == '=' {
        if with_eq { TokenType::EQ_EQ } else { TokenType::EQ }
    } else if c == '>' {
        if with_eq { TokenType::GREATER_EQ } else { TokenType::GREATER }
    } else {
        if with_eq { TokenType::LESS_EQ } else { TokenType::LESS }
    }
}

/// The kind of a one-character token, if `c` is one.
pub open spec fn single_char_type(c: char) -> Option<TokenType> {
    if c == '(' {
        Some(TokenType::LEFT_PAREN)
    } else if c == ')' {
        Some(TokenType::RIGHT_PAREN)
    } else if c == '{' {
        Some(TokenType::LEFT_BRACE)
    } else if c == '}' {
        Some(TokenType::RIGHT_BRACE)
    } else if c == '[' {
        Some(TokenType::LEFT_BRACKET)
    } else if c == ']' {
        Some(TokenType::RIGHT_BRACKET)
    } else if c == ',' {
        Some(TokenType::COMMA)
    } else if c == '.' {
        Some(TokenType::DOT)
    } else if c == '+' {
        Some(TokenType::PLUS)
    } else if c == '-' {
        Some(TokenType::MINUS)
    } else if c == '*' {
        Some(TokenType::STAR)
    } else if c == ':' {
        Some(TokenType::COLON)
    } else if c == '/' {
        Some(TokenType::SLASH)
    } else if c == '%' {
        Some(TokenType::MOD)
    } else {
        None
    }
}

/// One token scanned from `src`, the scanner standing at `cur0` on line `line0`.
pub open spec fn scan(src: Seq<char>, cur0: int, line0: nat) -> ScanStep {
    let s = skip_while(src, cur0, ws_pred());
    let c = peek_at(src, s);
    if c == '\0' {
        step(TokenType::EOF, seq!['E', 'O', 'F'], s, s)
    } else if single_char_type(c) is Some {
        step(single_char_type(c).unwrap(), text(src, s, s + 1), s, s + 1)
    } else if c == '!' || c == '=' || c == '>' || c == '<' {
        if peek_at(src, s + 1) == '=' {
            step(two_char_type(c, true), text(src, s, s + 2), s, s + 2)
        } else {
            step(two_char_type(c, false), text(src, s, s + 1), s, s + 1)
        }
    } else if c == '#' {
        let e = skip_while(src, s + 1, not_newline_pred());
        if e >= src.len() {
            ScanStep { token_type: TokenType::COMMENT, value: Seq::empty(), start: s, cur: e + 1, fails: true }
        } else {
            step(TokenType::COMMENT, text(src, s, e + 1), s, e + 1)
        }
    } else if c == '"' {
        let e = skip_while(src, s + 1, in_string_pred());
        if peek_at(src, e) == '\0' {
            step(
                TokenType::ERROR,
                missing_quote_message(line0 + newlines(src, cur0, e), (e + 1) as nat),
                s,
                e,
            )
        } else {
            step(TokenType::STRING, trim_quotes(unescape(text(src, s, e + 1)).0), s, e + 1)
        }
    } else if is_ident_start(c) {
        let e = skip_while(src, s + 1, ident_pred());
        let t = text(src, s, e);
        step(
            match spec_keyword(t) {
                Some(k) => TokenType::KEYWORD(k),
                None => TokenType::IDENTIFIER,
            },
            t,
            s,
            e,
        )
    } else if is_digit(c) {
        let e = skip_while(src, s + 1, digit_pred());
        if peek_at(src, e) == '.' && is_digit(peek_at(src, e + 1)) {
            let f = skip_while(src, e + 1, digit_pred());
            step(TokenType::FLOAT, text(src, s, f), s, f)
        } else {
            step(TokenType::INT, text(src, s, e), s, e)
        }
    } else {
        step(
            TokenType::ERROR,
            invalid_char_message(c, line0 + newlines(src, cur0, s + 1), (s + 2) as nat),
            s,
            s + 1,
        )
    }
}

/// The token that `scan` gives, with its line.
pub open spec fn scanned_token(src: Seq<char>, cur0: int, line0: nat) -> TokenView {
    let r = scan(src, cur0, line0);
    TokenView { token_type: r.token_type, value: r.value, line: (line0 + newlines(src, cur0, r.cur)) as u32 }
}

/// All the tokens from `cur` on, without comments and ending in the end-of-file token;
/// `None` where the scan would fail.
pub open spec fn lex(src: Seq<char>, cur: int, line: nat) -> Option<Seq<TokenView>>
    decreases src.len() - cur,
{
    let r = scan(src, cur, line);
    let t = scanned_token(src, cur, line);
    if cur < 0 || cur > src.len() || r.fails {
        None
    } else if r.token_type == TokenType::EOF {
        Some(seq![t])
    } else if r.cur <= cur || r.cur > src.len() {
        None
    } else {
        match lex(src, r.cur, line + newlines(src, cur, r.cur)) {
            Some(rest) => if r.token_type == TokenType::COMMENT {
                Some(rest)
            } else {
                Some(seq![t] + rest)
            },
            None => None,
        }
    }
}

// ---------------------------------------------------------------------------
// Facts about the mathematics
// ---------------------------------------------------------------------------

proof fn lemma_skip_while_bounds(src: Seq<char>, i: int, p: spec_fn(char) -> bool)
    requires
        0 <= i,
    ensures
        i <= skip_while(src, i, p),
        i <= src.len() ==> skip_while(src, i, p) <= src.len(),
    decreases src.len() - i,
{
    if i < src.len() && peek_at(src, i) != '\0' && p(peek_at(src, i)) {
        lemma_skip_while_bounds(src, i + 1, p);
    }
}

proof fn lemma_newlines_split(src: Seq<char>, a: int, b: int, c: int)
    requires
        a <= b <= c,
    ensures
        newlines(src, a, c) == newlines(src, a, b) + newlines(src, b, c),
    decreases c - b,
{
    if b < c {
        lemma_newlines_split(src, a, b, c - 1);
    }
}

proof fn lemma_newlines_bound(src: Seq<char>, a: int, b: int)
    requires
        a <= b,
    ensures
        newlines(src, a, b) <= b - a,
    decreases b - a,
{
    if a < b {
        lemma_newlines_bound(src, a, b - 1);
    }
}

/// Scanning one token moves forward, and stays inside the source unless it fails.
pub proof fn lemma_scan_advances(src: Seq<char>, cur: int, line: nat)
    requires
        0 <= cur <= src.len(),
    ensures
        scan(src, cur, line).start >= cur,
        scan(src, cur, line).cur >= scan(src, cur, line).start,
        scan(src, cur, line).token_type != TokenType::EOF ==> scan(src, cur, line).cur
            > scan(src, cur, line).start,
        !scan(src, cur, line).fails ==> scan(src, cur, line).cur <= src.len(),
{
    let s = skip_while(src, cur, ws_pred());
    lemma_skip_while_bounds(src, cur, ws_pred());
    lemma_skip_while_bounds(src, s + 1, not_newline_pred());
    lemma_skip_while_bounds(src, s + 1, in_string_pred());
    lemma_skip_while_bounds(src, s + 1, ident_pred());
    lemma_skip_while_bounds(src, s + 1, digit_pred());
    let e = skip_while(src, s + 1, digit_pred());
    if e + 1 <= src.len() {
        lemma_skip_while_bounds(src, e + 1, digit_pred());
    }
}

/// Once the scanner has reached the end of the file, scanning again gives the same
/// end-of-file token, at the same place and on the same line.
pub proof fn lemma_eof_repeats(src: Seq<char>, cur: int, line: nat)
    requires
        0 <= cur <= src.len(),
        scan(src, cur, line).token_type == TokenType::EOF,
    ensures
        ({
            let r = scan(src, cur, line);
            let next_line = line + newlines(src, cur, r.cur);
            &&& r.start == r.cur
            &&& scan(src, r.cur, next_line) == r
            &&& scanned_token(src, r.cur, next_line) == scanned_token(src, cur, line)
        }),
{
    let r = scan(src, cur, line);
    let s = skip_while(src, cur, ws_pred());
    lemma_skip_while_bounds(src, cur, ws_pred());
    assert(peek_at(src, s) == '\0');
    assert(skip_while(src, s, ws_pred()) == s);
    assert(newlines(src, s, s) == 0);
}

/// Every scan that does not give the end-of-file token, and does not fail, consumes at
/// least one character of the source and stays inside it.
pub proof fn lemma_scan_consumes(src: Seq<char>, cur: int, line: nat)
    requires
        0 <= cur <= src.len(),
        scan(src, cur, line).token_type != TokenType::EOF,
        !scan(src, cur, line).fails,
    ensures
        cur < scan(src, cur, line).cur <= src.len(),
{
    lemma_scan_advances(src, cur, line);
}

/// What a scan passes over before its token is whitespace and nothing else: each
/// character of the source that is not whitespace lies inside some token.
pub proof fn lemma_scan_skips_only_whitespace(src: Seq<char>, cur: int, line: nat)
    requires
        0 <= cur <= src.len(),
    ensures
        scan(src, cur, line).start == skip_while(src, cur, ws_pred()),
        forall|k: int| cur <= k < skip_while(src, cur, ws_pred()) ==> #[trigger] is_whitespace(peek_at(src, k)) && k < src.len(),
{
    let e = skip_while(src, cur, ws_pred());
    lemma_skip_while_only(src, cur, ws_pred());
    assert forall|k: int| cur <= k < e implies #[trigger] is_whitespace(peek_at(src, k)) && k < src.len() by {
        assert(peek_at(src, k) != '\0');
        assert(ws_pred()(peek_at(src, k)));
    }
}

/// Every position that `skip_while` passes over holds a character that is not `'\0'` and
/// meets the predicate.
proof fn lemma_skip_while_only(src: Seq<char>, i: int, p: spec_fn(char) -> bool)
    requires
        0 <= i,
    ensures
        forall|k: int| i <= k < skip_while(src, i, p) ==> #[trigger] peek_at(src, k) != '\0' && p(peek_at(src, k)),
    decreases src.len() - i,
{
    if i < src.len() && peek_at(src, i) != '\0' && p(peek_at(src, i)) {
        lemma_skip_while_only(src, i + 1, p);
    }
}

/// What `get_tokens` gives ends in the end-of-file token, and holds no comment and
/// no other end-of-file token.
pub proof fn lemma_lex_shape(src: Seq<char>, cur: int, line: nat)
    requires
        lex(src, cur, line) is Some,
    ensures
        lex(src, cur, line).unwrap().len() >= 1,
        lex(src, cur, line).unwrap().last().token_type == TokenType::EOF,
        lex(src, cur, line).unwrap().last().value == seq!['E', 'O', 'F'],
        forall|i: int|
            0 <= i < lex(src, cur, line).unwrap().len() - 1 ==> {
                &&& #[trigger] lex(src, cur, line).unwrap()[i].token_type != TokenType::EOF
                &&& lex(src, cur, line).unwrap()[i].token_type != TokenType::COMMENT
            },
    decreases src.len() - cur,
{
    let r = scan(src, cur, line);
    if r.token_type != TokenType::EOF {
        let rest_line = line + newlines(src, cur, r.cur);
        lemma_lex_shape(src, r.cur, rest_line);
        let rest = lex(src, r.cur, rest_line).unwrap();
        if r.token_type != TokenType::COMMENT {
            let all = seq![scanned_token(src, cur, line)] + rest;
            assert forall|i: int| 0 <= i < all.len() - 1 implies {
                &&& #[trigger] all[i].token_type != TokenType::EOF
                &&& all[i].token_type != TokenType::COMMENT
            } by {
                if i > 0 {
                    assert(all[i] == rest[i - 1]);
                }
            }
        }
    }
}

// ---------------------------------------------------------------------------
// The scanner
// ---------------------------------------------------------------------------

/// Turns source text into tokens.
pub struct Scanner {
    source_code: Vec<char>,
    start: usize,
    cur: usize,
    line: u32,
}

/// Whether `c` has Unicode's `White_Space` property.
pub fn char_is_whitespace(c: char) -> (b: bool)
    ensures
        b == is_whitespace(c),
{
    let u = c as u32;
    (0x9 <= u && u <= 0xD) || u == 0x20 || u == 0x85 || u == 0xA0 || u == 0x1680 || (0x2000 <= u
        && u <= 0x200A) || u == 0x2028 || u == 0x2029 || u == 0x202F || u == 0x205F || u == 0x3000
}

fn char_is_digit(c: char) -> (b: bool)
    ensures
        b == is_digit(c),
{
    '0' <= c && c <= '9'
}

fn char_is_ident_start(c: char) -> (b: bool)
    ensures
        b == is_ident_start(c),
{
    ('a' <= c && c <= 'z') || ('A' <= c && c <= 'Z') || c == '_'
}

/// Which of the scanner's character classes a `next_while` call uses.
enum CharClass {
    Digit,
    Ident,
    NotNewline,
    InString,
}

spec fn class_pred(k: CharClass) -> spec_fn(char) -> bool {
    match k {
        CharClass::Digit => digit_pred(),
        CharClass::Ident => ident_pred(),
        CharClass::NotNewline => not_newline_pred(),
        CharClass::InString => in_string_pred(),
    }
}

fn class_holds(k: &CharClass, c: char) -> (b: bool)
    ensures
        b == (class_pred(*k))(c),
{
    match k {
        CharClass::Digit => char_is_digit(c),
        CharClass::Ident => char_is_ident_start(c) || char_is_digit(c),
        CharClass::NotNewline => c != '\n',
        CharClass::InString => c != '"' && c != '\0',
    }
}

impl Scanner {
    /// The source text.
    pub closed spec fn source(&self) -> Seq<char> {
        self.source_code@
    }

    /// Where the token being scanned started.
    pub closed spec fn start_pos(&self) -> int {
        self.start as int
    }

    /// Where the scanner stands.
    pub closed spec fn cur_pos(&self) -> int {
        self.cur as int
    }

    /// The line the scanner is on.
    pub closed spec fn cur_line(&self) -> nat {
        self.line as nat
    }

    /// The scanner stands inside its source, and its line count cannot overflow.
    pub closed spec fn wf(&self) -> bool {
        &&& self.cur <= self.source_code@.len()
        &&& self.source_code@.len() + 2 < usize::MAX
        &&& self.line + newlines(self.source_code@, self.cur as int, self.source_code@.len() as int) <= u32::MAX
    }

    /// A scanner at the start of `source_code`, on line 1.
    pub fn init(source_code: &String) -> (s: Self)
        requires
            source_code@.len() + 2 < usize::MAX,
            newlines(source_code@, 0, source_code@.len() as int) < u32::MAX,
        ensures
            s.wf(),
            s.source() == source_code@,
            s.cur_pos() == 0,
            s.start_pos() == 0,
            s.cur_line() == 1,
    {
        Scanner { source_code: string_to_chars(source_code), start: 0, cur: 0, line: 1 }
    }

    /// The character at the current position, or `'\0'` past the end.
    fn peek(&self) -> (c: char)
        ensures
            c == peek_at(self.source(), self.cur_pos()),
    {
        if self.cur < self.source_code.len() {
            self.source_code[self.cur]
        } else {
            '\0'
        }
    }

    /// The character after the current position, or `'\0'` past the end.
    fn peek_next(&self) -> (c: char)
        requires
            self.wf(),
        ensures
            c == peek_at(self.source(), self.cur_pos() + 1),
    {
        if self.cur + 1 < self.source_code.len() {
            self.source_code[self.cur + 1]
        } else {
            '\0'
        }
    }

    /// Consumes the current character, counting a newline.
    fn next(&mut self) -> (c: char)
        requires
            old(self).wf(),
            old(self).cur_pos() < old(self).source().len(),
        ensures
            final(self).wf(),
            c == peek_at(old(self).source(), old(self).cur_pos()),
            final(self).source() == old(self).source(),
            final(self).start_pos() == old(self).start_pos(),
            final(self).cur_pos() == old(self).cur_pos() + 1,
            final(self).cur_line() == old(self).cur_line() + newlines(
                old(self).source(),
                old(self).cur_pos(),
                old(self).cur_pos() + 1,
            ),
    {
        let c = self.peek();
        proof {
            reveal_with_fuel(newlines, 2);
            lemma_newlines_split(self.source(), self.cur as int, self.cur as int + 1, self.source().len() as int);
        }
        self.cur = self.cur + 1;
        if c == '\n' {
            self.line = self.line + 1;
        }
        c
    }

    /// Consumes characters while they are not `'\0'` and belong to the class `k`.
    fn next_while(&mut self, k: CharClass)
        requires
            old(self).wf(),
        ensures
            final(self).wf(),
            final(self).source() == old(self).source(),
            final(self).start_pos() == old(self).start_pos(),
            final(self).cur_pos() == skip_while(old(self).source(), old(self).cur_pos(), class_pred(k)),
            final(self).cur_line() == old(self).cur_line() + newlines(
                old(self).source(),
                old(self).cur_pos(),
                final(self).cur_pos(),
            ),
    {
        let ghost src = self.source();
        let ghost c0 = self.cur_pos();
        let ghost l0 = self.cur_line();
        let mut c = self.peek();
        while c != '\0'
            invariant_except_break
                self.wf(),
                self.source() == src,
                self.start_pos() == old(self).start_pos(),
                c == peek_at(src, self.cur_pos()),
                c0 <= self.cur_pos(),
                skip_while(src, c0, class_pred(k)) == skip_while(src, self.cur_pos(), class_pred(k)),
                self.cur_line() == l0 + newlines(src, c0, self.cur_pos()),
            ensures
                self.wf(),
                self.source() == src,
                self.start_pos() == old(self).start_pos(),
                self.cur_pos() == skip_while(src, c0, class_pred(k)),
                self.cur_line() == l0 + newlines(src, c0, self.cur_pos()),
            decreases src.len() - self.cur_pos(),
        {
            if class_holds(&k, c) {
                let ghost before = self.cur_pos();
                self.next();
                proof {
                    lemma_newlines_split(src, c0, before, before + 1);
                }
            } else {
                break;
            }
            c = self.peek();
        }
    }

    /// Skips whitespace.
    fn remove_whitespace(&mut self)
        requires
            old(self).wf(),
        ensures
            final(self).wf(),
            final(self).source() == old(self).source(),
            final(self).start_pos() == old(self).start_pos(),
            final(self).cur_pos() == skip_while(old(self).source(), old(self).cur_pos(), ws_pred()),
            final(self).cur_line() == old(self).cur_line() + newlines(
                old(self).source(),
                old(self).cur_pos(),
                final(self).cur_pos(),
            ),
    {
        let ghost src = self.source();
        let ghost c0 = self.cur_pos();
        let ghost l0 = self.cur_line();
        loop
            invariant_except_break
                self.wf(),
                self.source() == src,
                self.start_pos() == old(self).start_pos(),
                c0 <= self.cur_pos(),
                skip_while(src, c0, ws_pred()) == skip_while(src, self.cur_pos(), ws_pred()),
                self.cur_line() == l0 + newlines(src, c0, self.cur_pos()),
            ensures
                self.wf(),
                self.source() == src,
                self.start_pos() == old(self).start_pos(),
                self.cur_pos() == skip_while(src, c0, ws_pred()),
                self.cur_line() == l0 + newlines(src, c0, self.cur_pos()),
            decreases src.len() - self.cur_pos(),
        {
            let c = self.peek();
            if !char_is_whitespace(c) {
                break;
            }
            let ghost before = self.cur_pos();
            self.next();
            proof {
                lemma_newlines_split(src, c0, before, before + 1);
            }
        }
    }

    /// The characters `start..cur` of the source.
    fn current_text(&self) -> (v: Vec<char>)
        requires
            self.start_pos() <= self.cur_pos() <= self.source().len(),
        ensures
            v@ == text(self.source(), self.start_pos(), self.cur_pos()),
    {
        let mut v: Vec<char> = Vec::new();
        let mut i: usize = self.start;
        while i < self.cur
            invariant
                self.start_pos() <= i <= self.cur_pos() <= self.source().len(),
                v@ == text(self.source(), self.start_pos(), i as int),
            decreases self.cur_pos() - i,
        {
            v.push(self.source_code[i]);
            i = i + 1;
            assert(text(self.source(), self.start_pos(), i as int) =~= text(
                self.source(),
                self.start_pos(),
                (i - 1) as int,
            ).push(self.source()[i - 1]));
        }
        v
    }

    /// Scans a string literal whose opening quote was just consumed.
    fn string(&mut self) -> (t: Token)
        requires
            old(self).wf(),
            old(self).start_pos() < old(self).cur_pos(),
            old(self).start_pos() == old(self).cur_pos() - 1,
        ensures
            final(self).wf(),
            final(self).source() == old(self).source(),
            final(self).start_pos() == old(self).start_pos(),
            ({
                let src = old(self).source();
                let e = skip_while(src, old(self).cur_pos(), in_string_pred());
                let s = old(self).start_pos();
                if peek_at(src, e) == '\0' {
                    &&& final(self).cur_pos() == e
                    &&& t.token_type == TokenType::ERROR
                    &&& t.value@ == missing_quote_message(
                        old(self).cur_line() + newlines(src, old(self).cur_pos(), e),
                        (e + 1) as nat,
                    )
                } else {
                    &&& final(self).cur_pos() == e + 1
                    &&& t.token_type == TokenType::STRING
                    &&& t.value@ == trim_quotes(unescape(text(src, s, e + 1)).0)
                }
            }),
            final(self).cur_line() == old(self).cur_line() + newlines(
                old(self).source(),
                old(self).cur_pos(),
                final(self).cur_pos(),
            ),
            t.line == final(self).line,
    {
        let ghost src = self.source();
        let ghost c0 = self.cur_pos();
        proof {
            lemma_skip_while_bounds(src, c0, in_string_pred());
        }
        self.next_while(CharClass::InString);
        if self.peek() == '\0' {
            let value = missing_quote_chars(self.line, self.cur + 1);
            return Token { token_type: TokenType::ERROR, value, line: self.line };
        }
        let ghost e = self.cur_pos();
        self.next();
        proof {
            lemma_newlines_split(src, c0, e, e + 1);
        }
        let raw = self.current_text();
        let unescaped = unescape_chars(&raw);
        let value = trim_quote_chars(&unescaped);
        Token { token_type: TokenType::STRING, value, line: self.line }
    }

    /// Scans an identifier or keyword whose first character was just consumed.
    fn identifier(&mut self) -> (t: Token)
        requires
            old(self).wf(),
            old(self).start_pos() <= old(self).cur_pos(),
        ensures
            final(self).wf(),
            final(self).source() == old(self).source(),
            final(self).start_pos() == old(self).start_pos(),
            final(self).cur_pos() == skip_while(old(self).source(), old(self).cur_pos(), ident_pred()),
            final(self).cur_line() == old(self).cur_line() + newlines(
                old(self).source(),
                old(self).cur_pos(),
                final(self).cur_pos(),
            ),
            t.value@ == text(old(self).source(), old(self).start_pos(), final(self).cur_pos()),
            t.token_type == (match spec_keyword(t.value@) {
                Some(k) => TokenType::KEYWORD(k),
                None => TokenType::IDENTIFIER,
            }),
            t.line == final(self).line,
    {
        proof {
            lemma_skip_while_bounds(self.source(), self.cur_pos(), ident_pred());
        }
        self.next_while(CharClass::Ident);
        let value = self.current_text();
        let token_type = match Keywords::from_chars(value.as_slice()) {
            Ok(k) => TokenType::KEYWORD(k),
            Err(_) => TokenType::IDENTIFIER,
        };
        Token { token_type, value, line: self.line }
    }

    /// Scans a number whose first digit was just consumed.
    fn number(&mut self) -> (t: Token)
        requires
            old(self).wf(),
            old(self).start_pos() <= old(self).cur_pos(),
        ensures
            final(self).wf(),
            final(self).source() == old(self).source(),
            final(self).start_pos() == old(self).start_pos(),
            ({
                let src = old(self).source();
                let e = skip_while(src, old(self).cur_pos(), digit_pred());
                if peek_at(src, e) == '.' && is_digit(peek_at(src, e + 1)) {
                    &&& final(self).cur_pos() == skip_while(src, e + 1, digit_pred())
                    &&& t.token_type == TokenType::FLOAT
                } else {
                    &&& final(self).cur_pos() == e
                    &&& t.token_type == TokenType::INT
                }
            }),
            final(self).cur_line() == old(self).cur_line() + newlines(
                old(self).source(),
                old(self).cur_pos(),
                final(self).cur_pos(),
            ),
            t.value@ == text(old(self).source(), old(self).start_pos(), final(self).cur_pos()),
            t.line == final(self).line,
    {
        let ghost src = self.source();
        let ghost c0 = self.cur_pos();
        proof {
            lemma_skip_while_bounds(src, c0, digit_pred());
        }
        self.next_while(CharClass::Digit);
        let mut token_type = TokenType::INT;
        if self.peek() == '.' && char_is_digit(self.peek_next()) {
            let ghost e = self.cur_pos();
            self.next();
            proof {
                lemma_newlines_split(src, c0, e, e + 1);
                lemma_skip_while_bounds(src, e + 1, digit_pred());
            }
            self.next_while(CharClass::Digit);
            proof {
                lemma_newlines_split(src, c0, e + 1, self.cur_pos());
            }
            token_type = TokenType::FLOAT;
        }
        let value = self.current_text();
        Token { token_type, value, line: self.line }
    }

    /// Scans the next token. At the end of the source (or at a `'\0'`) it gives the
    /// end-of-file token and stays where it is.
    pub fn scan_token(&mut self) -> (t: Token)
        requires
            old(self).wf(),
            !scan(old(self).source(), old(self).cur_pos(), old(self).cur_line()).fails,
        ensures
            final(self).wf(),
            final(self).source() == old(self).source(),
            t@ == scanned_token(old(self).source(), old(self).cur_pos(), old(self).cur_line()),
            final(self).start_pos() == scan(old(self).source(), old(self).cur_pos(), old(self).cur_line()).start,
            final(self).cur_pos() == scan(old(self).source(), old(self).cur_pos(), old(self).cur_line()).cur,
            final(self).cur_line() == old(self).cur_line() + newlines(
                old(self).source(),
                old(self).cur_pos(),
                final(self).cur_pos(),
            ),
    {
        let ghost src = self.source();
        let ghost c0 = self.cur_pos();
        let ghost l0 = self.cur_line();
        proof {
            lemma_scan_advances(src, c0, l0);
            lemma_skip_while_bounds(src, c0, ws_pred());
        }
        self.remove_whitespace();
        self.start = self.cur;
        let ghost s = self.cur_pos();
        if self.peek() == '\0' {
            return Token { token_type: TokenType::EOF, value: vec!['E', 'O', 'F'], line: self.line };
        }
        let c = self.next();
        proof {
            lemma_newlines_split(src, c0, s, s + 1);
        }
        let token_type = if c == '(' {
            TokenType::LEFT_PAREN
        } else if c == ')' {
            TokenType::RIGHT_PAREN
        } else if c == '{' {
            TokenType::LEFT_BRACE
        } else if c == '}' {
            TokenType::RIGHT_BRACE
        } else if c == '[' {
            TokenType::LEFT_BRACKET
        } else if c == ']' {
            TokenType::RIGHT_BRACKET
        } else if c == ',' {
            TokenType::COMMA
        } else if c == '.' {
            TokenType::DOT
        } else if c == '+' {
            TokenType::PLUS
        } else if c == '-' {
            TokenType::MINUS
        } else if c == '*' {
            TokenType::STAR
        } else if c == ':' {
            TokenType::COLON
        } else if c == '/' {
            TokenType::SLASH
        } else if c == '%' {
            TokenType::MOD
        } else if c == '!' || c == '=' || c == '>' || c == '<' {
            let with_eq = self.peek() == '=';
            if with_eq {
                self.next();
                proof {
                    lemma_newlines_split(src, c0, s + 1, s + 2);
                }
            }
            if c == '!' {
                if with_eq { TokenType::INTERJ_EQ } else { TokenType::INTERJ }
            } else if c == '=' {
                if with_eq { TokenType::EQ_EQ } else { TokenType::EQ }
            } else if c == '>' {
                if with_eq { TokenType::GREATER_EQ } else { TokenType::GREATER }
            } else {
                if with_eq { TokenType::LESS_EQ } else { TokenType::LESS }
            }
        } else if c == '#' {
            proof {
                lemma_skip_while_bounds(src, s + 1, not_newline_pred());
            }
            self.next_while(CharClass::NotNewline);
            let ghost e = self.cur_pos();
            self.next();
            proof {
                lemma_newlines_split(src, c0, s + 1, e);
                lemma_newlines_split(src, c0, e, e + 1);
            }
            TokenType::COMMENT
        } else if c == '"' {
            let t = self.string();
            proof {
                lemma_newlines_split(src, c0, s + 1, self.cur_pos());
            }
            return t;
        } else if char_is_ident_start(c) {
            let t = self.identifier();
            proof {
                lemma_newlines_split(src, c0, s + 1, self.cur_pos());
            }
            return t;
        } else if char_is_digit(c) {
            let t = self.number();
            proof {
                lemma_newlines_split(src, c0, s + 1, self.cur_pos());
            }
            return t;
        } else {
            let value = invalid_char_chars(c, self.line, self.cur + 1);
            return Token { token_type: TokenType::ERROR, value, line: self.line };
        };
        let value = self.current_text();
        Token { token_type, value, line: self.line }
    }

    /// All the tokens of the source from where the scanner stands, without comments,
    /// ending in the end-of-file token.
    pub fn get_tokens(&mut self) -> (tokens: Vec<Token>)
        requires
            old(self).wf(),
            lex(old(self).source(), old(self).cur_pos(), old(self).cur_line()) is Some,
        ensures
            tokens@.map_values(|t: Token| t@) == lex(
                old(self).source(),
                old(self).cur_pos(),
                old(self).cur_line(),
            ).unwrap(),
    {
        let ghost src = self.source();
        let ghost c0 = self.cur_pos();
        let ghost l0 = self.cur_line();
        let mut tokens: Vec<Token> = Vec::new();
        loop
            invariant_except_break
                self.wf(),
                self.source() == src,
                lex(src, self.cur_pos(), self.cur_line()) is Some,
                lex(src, c0, l0) == Some(
                    tokens@.map_values(|t: Token| t@) + lex(src, self.cur_pos(), self.cur_line()).unwrap(),
                ),
            ensures
                tokens@.map_values(|t: Token| t@) == lex(src, c0, l0).unwrap(),
            decreases src.len() - self.cur_pos(),
        {
            let ghost cur = self.cur_pos();
            let ghost line = self.cur_line();
            proof {
                lemma_scan_advances(src, cur, line);
            }
            let token = self.scan_token();
            if token.token_type == TokenType::EOF {
                let eof = Token { token_type: TokenType::EOF, value: vec!['E', 'O', 'F'], line: self.line };
                let ghost before = tokens@;
                tokens.push(eof);
                proof {
                    assert(tokens@.map_values(|t: Token| t@) =~= before.map_values(|t: Token| t@)
                        + seq![eof@]);
                    assert(eof@ == scanned_token(src, cur, line));
                }
                break;
            }
            if token.token_type != TokenType::COMMENT {
                let ghost before = tokens@;
                let ghost tv = token@;
                tokens.push(token);
                proof {
                    assert(tokens@.map_values(|t: Token| t@) =~= before.map_values(|t: Token| t@)
                        + seq![tv]);
                    let rest = lex(src, self.cur_pos(), self.cur_line()).unwrap();
                    assert(seq![tv] + rest =~= lex(src, cur, line).unwrap());
                    assert(before.map_values(|t: Token| t@) + seq![tv] + rest =~= before.map_values(
                        |t: Token| t@,
                    ) + (seq![tv] + rest));
                }
            }
        }
        tokens
    }
}

/// The text of a string literal with its escapes replaced.
fn unescape_chars(s: &Vec<char>) -> (v: Vec<char>)
    ensures
        v@ == unescape(s@).0,
{
    let mut out: Vec<char> = Vec::new();
    let mut esc = false;
    let mut i: usize = 0;
    while i < s.len()
        invariant
            i <= s@.len(),
            (out@, esc) == unescape(s@.take(i as int)),
        decreases s@.len() - i,
    {
        let c = s[i];
        assert(s@.take((i + 1) as int).drop_last() =~= s@.take(i as int));
        if c == '\\' {
            esc = true;
        } else if esc {
            if c == 'n' {
                out.push('\n');
            } else if c == 'r' {
                out.push('\r');
            } else if c == 't' {
                out.push('\t');
            } else {
                out.push('\\');
                out.push(c);
            }
            esc = false;
        } else {
            out.push(c);
        }
        i = i + 1;
        proof {
            let t = s@.take(i as int);
            assert(t.last() == c);
            if c != '\\' && !unescape(s@.take((i - 1) as int)).1 {
                assert(out@ =~= unescape(s@.take((i - 1) as int)).0.push(c));
            }
        }
        assert((out@, esc) == unescape(s@.take(i as int))) by {
            assert(escaped('n') =~= seq!['\n']);
            let prev = unescape(s@.take((i - 1) as int));
            if c != '\\' && prev.1 {
                assert(out@ =~= prev.0 + escaped(c));
            }
        }
    }
    assert(s@.take(i as int) =~= s@);
    out
}

proof fn lemma_strip_leading(s: Seq<char>, i: int)
    requires
        0 <= i <= s.len(),
        forall|j: int| 0 <= j < i ==> s[j] == '"',
    ensures
        strip_leading_quotes(s) == strip_leading_quotes(s.subrange(i, s.len() as int)),
    decreases i,
{
    if i > 0 {
        lemma_strip_leading(s, i - 1);
        let t = s.subrange(i - 1, s.len() as int);
        assert(t.drop_first() =~= s.subrange(i, s.len() as int));
    } else {
        assert(s.subrange(0, s.len() as int) =~= s);
    }
}

proof fn lemma_strip_trailing(s: Seq<char>, j: int)
    requires
        0 <= j <= s.len(),
        forall|k: int| j <= k < s.len() ==> s[k] == '"',
    ensures
        strip_trailing_quotes(s) == strip_trailing_quotes(s.subrange(0, j)),
    decreases s.len() - j,
{
    if j < s.len() {
        lemma_strip_trailing(s, j + 1);
        let t = s.subrange(0, j + 1);
        assert(t.drop_last() =~= s.subrange(0, j));
    } else {
        assert(s.subrange(0, s.len() as int) =~= s);
    }
}

/// `s` without the `'"'` characters at either end.
fn trim_quote_chars(s: &Vec<char>) -> (v: Vec<char>)
    ensures
        v@ == trim_quotes(s@),
{
    let mut i: usize = 0;
    while i < s.len() && s[i] == '"'
        invariant
            i <= s@.len(),
            forall|j: int| 0 <= j < i ==> s@[j] == '"',
        decreases s@.len() - i,
    {
        i = i + 1;
    }
    proof {
        lemma_strip_leading(s@, i as int);
    }
    let ghost lead = s@.subrange(i as int, s@.len() as int);
    let mut j: usize = s.len();
    while j > i && s[j - 1] == '"'
        invariant
            i <= j <= s@.len(),
            forall|k: int| j <= k < s@.len() ==> s@[k] == '"',
        decreases j,
    {
        j = j - 1;
    }
    proof {
        if i < s@.len() {
            assert(strip_leading_quotes(lead) == lead);
        } else {
            assert(lead.len() == 0);
        }
        lemma_strip_trailing(lead, (j - i) as int);
    }
    let mut v: Vec<char> = Vec::new();
    let mut k: usize = i;
    while k < j
        invariant
            i <= k <= j <= s@.len(),
            v@ == s@.subrange(i as int, k as int),
        decreases j - k,
    {
        v.push(s[k]);
        k = k + 1;
        assert(s@.subrange(i as int, k as int) =~= s@.subrange(i as int, (k - 1) as int).push(s@[k - 1]));
    }
    proof {
        assert(v@ =~= lead.subrange(0, (j - i) as int));
        if i == s@.len() {
            assert(strip_leading_quotes(lead) =~= lead);
        }
    }
    v
}

/// The characters of a message naming a missing closing quote.
fn missing_quote_chars(line: u32, col: usize) -> (v: Vec<char>)
    requires
        col < u64::MAX,
    ensures
        v@ == missing_quote_message(line as nat, col as nat),
{
    let mut v = str_to_chars("Missing \" at the end of string ");
    let l = decimal_chars(line as u64);
    append_chars(&mut v, l.as_slice());
    let colon = str_to_chars(":");
    append_chars(&mut v, colon.as_slice());
    let c = decimal_chars(col as u64);
    append_chars(&mut v, c.as_slice());
    v
}

/// The characters of a message naming a character that starts no token.
fn invalid_char_chars(ch: char, line: u32, col: usize) -> (v: Vec<char>)
    requires
        col < u64::MAX,
    ensures
        v@ == invalid_char_message(ch, line as nat, col as nat),
{
    let mut v = str_to_chars("Invalid char (");
    v.push(ch);
    let close = str_to_chars(") ");
    append_chars(&mut v, close.as_slice());
    let l = decimal_chars(line as u64);
    append_chars(&mut v, l.as_slice());
    let colon = str_to_chars(":");
    append_chars(&mut v, colon.as_slice());
    let c = decimal_chars(col as u64);
    append_chars(&mut v, c.as_slice());
    v
}

} // verus!

verus! {

impl Scanner {
    /// Whether scanning the next token would fail: after the whitespace, a `#` comment
    /// that runs to the end of the source with no newline.
    pub fn next_scan_fails(&self) -> (b: bool)
        requires
            self.wf(),
        ensures
            b == scan(self.source(), self.cur_pos(), self.cur_line()).fails,
    {
        let ghost src = self.source();
        let n = self.source_code.len();
        let mut s = self.cur;
        while s < n && self.source_code[s] != '\0' && char_is_whitespace(self.source_code[s])
            invariant
                self.wf(),
                src == self.source(),
                n == src.len(),
                self.cur_pos() <= s <= n,
                skip_while(src, self.cur_pos(), ws_pred()) == skip_while(src, s as int, ws_pred()),
            decreases n - s,
        {
            s = s + 1;
        }
        assert(skip_while(src, s as int, ws_pred()) == s);
        if s >= n || self.source_code[s] != '#' {
            return false;
        }
        let mut e = s + 1;
        while e < n && self.source_code[e] != '\0' && self.source_code[e] != '\n'
            invariant
                s < e <= n,
                n == src.len(),
                src == self.source(),
                skip_while(src, s + 1, not_newline_pred()) == skip_while(src, e as int, not_newline_pred()),
            decreases n - e,
        {
            e = e + 1;
        }
        assert(skip_while(src, e as int, not_newline_pred()) == e);
        e >= n
    }

    /// All the tokens of the source from where the scanner stands, as `get_tokens` gives
    /// them; `None` where the scan would fail on the way.
    pub fn try_get_tokens(&mut self) -> (r: Option<Vec<Token>>)
        requires
            old(self).wf(),
        ensures
            r is Some <==> lex(old(self).source(), old(self).cur_pos(), old(self).cur_line()) is Some,
            r matches Some(tokens) ==> tokens@.map_values(|t: Token| t@) == lex(
                old(self).source(),
                old(self).cur_pos(),
                old(self).cur_line(),
            ).unwrap(),
    {
        let ghost src = self.source();
        let ghost c0 = self.cur_pos();
        let ghost l0 = self.cur_line();
        let mut tokens: Vec<Token> = Vec::new();
        loop
            invariant_except_break
                self.wf(),
                self.source() == src,
                src == old(self).source(),
                c0 == old(self).cur_pos(),
                l0 == old(self).cur_line(),
                lex(src, c0, l0) is Some <==> lex(src, self.cur_pos(), self.cur_line()) is Some,
                lex(src, self.cur_pos(), self.cur_line()) is Some ==> lex(src, c0, l0) == Some(
                    tokens@.map_values(|t: Token| t@) + lex(src, self.cur_pos(), self.cur_line()).unwrap(),
                ),
            ensures
                lex(src, c0, l0) is Some,
                tokens@.map_values(|t: Token| t@) == lex(src, c0, l0).unwrap(),
            decreases src.len() - self.cur_pos(),
        {
            let ghost cur = self.cur_pos();
            let ghost line = self.cur_line();
            proof {
                lemma_scan_advances(src, cur, line);
            }
            if self.next_scan_fails() {
                assert(lex(src, cur, line) is None);
                return None;
            }
            let token = self.scan_token();
            if token.token_type == TokenType::EOF {
                let eof = Token { token_type: TokenType::EOF, value: vec!['E', 'O', 'F'], line: self.line };
                let ghost before = tokens@;
                tokens.push(eof);
                proof {
                    assert(tokens@.map_values(|t: Token| t@) =~= before.map_values(|t: Token| t@)
                        + seq![eof@]);
                    assert(eof@ == scanned_token(src, cur, line));
                }
                break;
            }
            if token.token_type != TokenType::COMMENT {
                let ghost before = tokens@;
                let ghost tv = token@;
                tokens.push(token);
                proof {
                    assert(tokens@.map_values(|t: Token| t@) =~= before.map_values(|t: Token| t@)
                        + seq![tv]);
                    if lex(src, self.cur_pos(), self.cur_line()) is Some {
                        let rest = lex(src, self.cur_pos(), self.cur_line()).unwrap();
                        assert(seq![tv] + rest =~= lex(src, cur, line).unwrap());
                        assert(before.map_values(|t: Token| t@) + seq![tv] + rest =~= before.map_values(
                            |t: Token| t@,
                        ) + (seq![tv] + rest));
                    }
                }
            }
        }
        Some(tokens)
    }
}

} // verus!
