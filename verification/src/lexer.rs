use crate::text::{byte_len, parse_i32_plus, push_char, spec_parse_i32_plus};
use crate::token::{tokens_view, Keyword, Token, TokenVal};
use vstd::prelude::*;
use vstd::string::{StrSliceExecFns, StringExecFns};

verus! {

broadcast use vstd::std_specs::vec::group_vec_axioms, vstd::slice::group_slice_axioms;

/// Whether `c` has the Unicode white-space property, the set the slice
/// scanner stops on.
pub open spec fn is_lex_space(c: char) -> bool {
    let u = c as int;
    ||| u == 0x20
    ||| (0x9 <= u <= 0xd)
    ||| u == 0x85
    ||| u == 0xa0
    ||| u == 0x1680
    ||| (0x2000 <= u <= 0x200a)
    ||| u == 0x2028
    ||| u == 0x2029
    ||| u == 0x202f
    ||| u == 0x205f
    ||| u == 0x3000
}

/// Whether the character `a` lowercases (ASCII-wise) to exactly `b`.
pub open spec fn lowers_to(a: char, b: char) -> bool {
    a == b || (0x41 <= a as int <= 0x5a && a as int + 0x20 == b as int)
}

/// Whether the slice spells the one keyword, case-insensitively.
pub open spec fn is_write_line(s: Seq<char>) -> bool {
    s.len() == 10 && (forall|i: int| 0 <= i < 10 ==> lowers_to(s[i], #[trigger] ("write-line"@)[i]))
}

/// The slice scan: starting from the character `cur`, gathers characters
/// until white space ends the run or a parenthesis is seen just ahead;
/// the parenthesis is left unconsumed.  Returns the slice and the cursor
/// after it; `None` when the run reaches the end of the input with no
/// character left to look ahead at.
pub open spec fn spec_slice_loop(s: Seq<char>, cur: char, pos: int) -> Option<(Seq<char>, int)>
    decreases s.len() - pos,
{
    if is_lex_space(cur) {
        Some((Seq::empty(), pos))
    } else if pos < 0 || pos >= s.len() {
        None
    } else if s[pos] == '(' || s[pos] == ')' {
        Some((seq![cur], pos))
    } else {
        match spec_slice_loop(s, s[pos], pos + 1) {
            None => None,
            Some((rest, p2)) => Some((seq![cur] + rest, p2)),
        }
    }
}

/// What a gathered slice means: a signed integer when it parses as one; a
/// one-byte slice is a symbol character; a both-ends-quoted slice is a
/// string with the quotes stripped; the keyword `write-line` matches
/// case-insensitively; everything else — including an empty slice, one
/// whose quote probe lands outside its characters, or an unknown word —
/// has no token.
pub open spec fn spec_classify(slice: Seq<char>) -> Option<TokenVal> {
    let bl = vstd::utf8::encode_utf8(slice).len() as int;
    if spec_parse_i32_plus(slice) is Some {
        match spec_parse_i32_plus(slice) {
            Some(v) => Some(TokenVal::Int(v)),
            None => None,
        }
    } else if bl == 1 {
        if slice.len() == 0 {
            None
        } else {
            Some(TokenVal::Symbol(slice[0]))
        }
    } else if slice.len() == 0 {
        None
    } else if slice[0] == '"' {
        if bl == 0 {
            None
        } else if bl > slice.len() {
            None
        } else if slice[bl - 1] == '"' {
            Some(TokenVal::Str(slice.subrange(1, bl - 1)))
        } else if is_write_line(slice) {
            Some(TokenVal::Keyword(Keyword::WriteLine))
        } else {
            None
        }
    } else if is_write_line(slice) {
        Some(TokenVal::Keyword(Keyword::WriteLine))
    } else {
        None
    }
}

/// The token stream from the character cursor `pos` on, given the byte
/// length `bl` of the whole input and the current nesting `depth`.  The
/// scan stops before the input's last byte; `(` and `)` manage depth, any
/// other character opens a slice.  `None` marks the inputs the lexer
/// rejects outright: a cursor past the characters, a closing token at
/// depth zero, a slice with no token, or leftover open lists at the end.
pub open spec fn spec_lex_from(s: Seq<char>, bl: int, pos: int, depth: int) -> Option<
    Seq<TokenVal>,
>
    decreases s.len() + 1 - pos,
{
    if pos >= bl - 1 {
        if depth > 0 {
            None
        } else {
            Some(seq![TokenVal::ListEnd(0)])
        }
    } else if pos < 0 || pos >= s.len() {
        None
    } else {
        let c = s[pos];
        let pos1 = pos + 1;
        if c == '(' {
            if depth >= u32::MAX {
                None
            } else {
                match spec_lex_from(s, bl, pos1, depth + 1) {
                    None => None,
                    Some(rest) => Some(seq![TokenVal::ListBegin((depth + 1) as u32)] + rest),
                }
            }
        } else if c == ')' {
            if depth <= 0 {
                None
            } else {
                match spec_lex_from(s, bl, pos1, depth - 1) {
                    None => None,
                    Some(rest) => Some(seq![TokenVal::ListEnd(depth as u32)] + rest),
                }
            }
        } else {
            match spec_slice_loop(s, c, pos1) {
                None => None,
                Some((slice, p2)) => if p2 < pos1 || p2 > s.len() {
                    None
                } else {
                    match spec_classify(slice) {
                        None => None,
                        Some(tok) => match spec_lex_from(s, bl, p2, depth) {
                            None => None,
                            Some(rest) => Some(seq![tok] + rest),
                        },
                    }
                },
            }
        }
    }
}

/// The whole token stream of an input: a depth-zero opener, the scanned
/// tokens, and a depth-zero closer; `None` for every input the lexer
/// rejects, an empty input included (it has no last byte to stop before).
pub open spec fn spec_lex(s: Seq<char>) -> Option<Seq<TokenVal>> {
    let bl = vstd::utf8::encode_utf8(s).len() as int;
    if bl == 0 {
        None
    } else {
        match spec_lex_from(s, bl, 0, 0) {
            None => None,
            Some(toks) => Some(seq![TokenVal::ListBegin(0)] + toks),
        }
    }
}

/// Whether `c` has the Unicode white-space property.
fn is_space_char(c: char) -> (r: bool)
    ensures
        r == is_lex_space(c),
{
    let u = c as u32;
    u == 0x20 || (0x9 <= u && u <= 0xd) || u == 0x85 || u == 0xa0 || u == 0x1680 || (0x2000 <= u
        && u <= 0x200a) || u == 0x2028 || u == 0x2029 || u == 0x202f || u == 0x205f || u == 0x3000
}

/// Whether the text spells the one keyword, case-insensitively.
fn is_write_line_text(s: &str) -> (r: bool)
    ensures
        r == is_write_line(s@),
{
    proof {
        reveal_strlit("write-line");
    }
    let n = s.unicode_len();
    if n != 10 {
        return false;
    }
    let t: &str = "write-line";
    let mut i: usize = 0;
    while i < 10
        invariant
            s@.len() == 10,
            t@ == "write-line"@,
            t@.len() == 10,
            i <= 10,
            forall|j: int| 0 <= j < i ==> lowers_to(s@[j], #[trigger] t@[j]),
        decreases 10 - i,
    {
        let a = s.get_char(i) as u32;
        let b = t.get_char(i) as u32;
        let ok = a == b || (0x41 <= a && a <= 0x5a && a + 0x20 == b);
        if !ok {
            return false;
        }
        i = i + 1;
    }
    true
}

/// Gathers one slice, against `spec_slice_loop`.
fn scan_slice(s: &str, cur: char, pos: usize) -> (r: Option<(String, usize)>)
    requires
        pos <= s@.len(),
    ensures
        match r {
            Some(p) => spec_slice_loop(s@, cur, pos as int) == Some((p.0@, p.1 as int)) && pos
                <= p.1 <= s@.len(),
            None => spec_slice_loop(s@, cur, pos as int) is None,
        },
    decreases s@.len() - pos,
{
    if is_space_char(cur) {
        return Some((String::new(), pos));
    }
    let len = s.unicode_len();
    if pos >= len {
        return None;
    }
    let nc = s.get_char(pos);
    if nc == '(' || nc == ')' {
        let mut one = String::new();
        push_char(&mut one, cur);
        proof {
            assert(one@ =~= seq![cur]);
        }
        return Some((one, pos));
    }
    match scan_slice(s, nc, pos + 1) {
        None => None,
        Some(p) => {
            let mut out = String::new();
            push_char(&mut out, cur);
            out.append(p.0.as_str());
            proof {
                assert(out@ =~= seq![cur] + p.0@);
            }
            Some((out, p.1))
        }
    }
}

/// Classifies one gathered slice, against `spec_classify`.
fn classify_slice(slice: &str) -> (r: Option<Token>)
    ensures
        match r {
            Some(t) => spec_classify(slice@) == Some(t@),
            None => spec_classify(slice@) is None,
        },
{
    match parse_i32_plus(slice) {
        Some(v) => {
            return Some(Token::Int(v));
        }
        None => {}
    }
    let bl = byte_len(slice);
    let cl = slice.unicode_len();
    if bl == 1 {
        if cl == 0 {
            return None;
        }
        return Some(Token::Symbol(slice.get_char(0)));
    }
    if cl == 0 {
        return None;
    }
    if slice.get_char(0) == '"' {
        if bl == 0 || bl > cl {
            return None;
        }
        if slice.get_char(bl - 1) == '"' {
            let inner = slice.substring_char(1, bl - 1);
            return Some(Token::Str(inner.to_owned()));
        }
        if is_write_line_text(slice) {
            return Some(Token::Keyword(Keyword::WriteLine));
        }
        return None;
    }
    if is_write_line_text(slice) {
        return Some(Token::Keyword(Keyword::WriteLine));
    }
    None
}

/// Scans a whole input into tokens, against `spec_lex`; the inputs the
/// lexer rejects are excluded.
fn lex_tokens(s: &str) -> (r: Vec<Token>)
    requires
        spec_lex(s@) is Some,
    ensures
        Some(tokens_view(r@)) == spec_lex(s@),
{
    let bl = byte_len(s);
    let ghost full = match spec_lex_from(s@, bl as int, 0, 0) {
        Some(ts) => ts,
        None => Seq::empty(),
    };
    let mut toks: Vec<Token> = Vec::new();
    toks.push(Token::ListBegin(0));
    proof {
        assert(tokens_view(toks@) =~= seq![TokenVal::ListBegin(0)]);
    }
    let mut pos: usize = 0;
    let mut depth: u32 = 0;
    while pos < bl - 1
        invariant
            bl == vstd::utf8::encode_utf8(s@).len(),
            bl >= 1,
            pos <= s@.len(),
            match spec_lex_from(s@, bl as int, pos as int, depth as int) {
                Some(rest) => tokens_view(toks@) + rest =~= seq![TokenVal::ListBegin(0)] + full,
                None => false,
            },
        decreases s@.len() + 1 - pos,
    {
        let ghost tv0 = tokens_view(toks@);
        let cl = s.unicode_len();
        if pos >= cl {
            proof {
                assert(false);
            }
            return toks;
        }
        let c = s.get_char(pos);
        pos = pos + 1;
        if c == '(' {
            if depth == u32::MAX {
                proof {
                    assert(false);
                }
                return toks;
            }
            depth = depth + 1;
            toks.push(Token::ListBegin(depth));
            proof {
                assert(tokens_view(toks@) =~= tv0 + seq![TokenVal::ListBegin(depth)]);
            }
        } else if c == ')' {
            if depth == 0 {
                proof {
                    assert(false);
                }
                return toks;
            }
            toks.push(Token::ListEnd(depth));
            depth = depth - 1;
            proof {
                assert(tokens_view(toks@) =~= tv0 + seq![TokenVal::ListEnd((depth + 1) as u32)]);
            }
        } else {
            match scan_slice(s, c, pos) {
                None => {
                    proof {
                        assert(false);
                    }
                    return toks;
                }
                Some(p) => {
                    let (slice, p2) = p;
                    match classify_slice(slice.as_str()) {
                        None => {
                            proof {
                                assert(false);
                            }
                            return toks;
                        }
                        Some(tok) => {
                            let ghost tokv = tok@;
                            toks.push(tok);
                            pos = p2;
                            proof {
                                assert(tokens_view(toks@) =~= tv0 + seq![tokv]);
                            }
                        }
                    }
                }
            }
        }
    }
    if depth > 0 {
        proof {
            assert(false);
        }
        return toks;
    }
    let ghost tv1 = tokens_view(toks@);
    toks.push(Token::ListEnd(0));
    proof {
        assert(tokens_view(toks@) =~= tv1 + seq![TokenVal::ListEnd(0)]);
        assert(tokens_view(toks@) =~= seq![TokenVal::ListBegin(0)] + full);
    }
    toks
}

/// The early arithmetic front end's scanner: a character cursor over one
/// input string, a nesting depth, and the tokens gathered so far.
pub struct Lexer {
    current_position: usize,
    current_char: char,
    current_depth: u32,
    tokens: Vec<Token>,
    input: String,
}

impl Lexer {
    /// The input text.
    pub closed spec fn input_text(self) -> Seq<char> {
        self.input@
    }

    /// The models of the tokens gathered so far.
    pub closed spec fn toks(self) -> Seq<TokenVal> {
        tokens_view(self.tokens@)
    }

    /// A fresh scanner over `input`, with no tokens yet.
    pub fn new(input: String) -> (l: Lexer)
        ensures
            l.input_text() == input@,
            l.toks() == Seq::<TokenVal>::empty(),
    {
        let l = Lexer {
            current_position: 0,
            current_char: ' ',
            current_depth: 0,
            tokens: Vec::new(),
            input,
        };
        proof {
            assert(l.toks() =~= Seq::<TokenVal>::empty());
        }
        l
    }

    /// Scans the whole input into the token list, against `spec_lex`;
    /// the inputs the scan rejects are excluded.
    pub fn tokenize(&mut self)
        requires
            spec_lex(old(self).input_text()) is Some,
        ensures
            final(self).input_text() == old(self).input_text(),
            Some(final(self).toks()) == spec_lex(old(self).input_text()),
    {
        let new_toks = lex_tokens(self.input.as_str());
        self.tokens = new_toks;
    }

    /// A copy of the gathered tokens.
    pub fn get_tokens(&self) -> (r: Vec<Token>)
        ensures
            tokens_view(r@) == self.toks(),
    {
        let mut out: Vec<Token> = Vec::new();
        let mut i: usize = 0;
        while i < self.tokens.len()
            invariant
                i <= self.tokens@.len(),
                out@.len() == i as int,
                forall|j: int| 0 <= j < i ==> (#[trigger] out@[j])@ == self.tokens@[j]@,
            decreases self.tokens@.len() - i,
        {
            out.push(self.tokens[i].clone());
            i = i + 1;
        }
        proof {
            assert(tokens_view(out@) =~= tokens_view(self.tokens@));
        }
        out
    }
}

} // verus!
