use crate::errors::{reader_error, ErrVal, LispError};
use crate::lisp_type::{val_of, vals_seq, LispType, Val};
use crate::semantics::{lemma_vals_wf_index, val_wf, vals_wf};
use crate::text::{is_digit, parse_i32, spec_parse_i32, str_eq, strs_view};
use vstd::prelude::*;
use vstd::string::{StrSliceExecFns, StringExecFns};

verus! {

broadcast use vstd::std_specs::vec::group_vec_axioms;

/// Whether `c` separates tokens: ASCII whitespace or a comma.
pub open spec fn is_separator(c: char) -> bool {
    c == ' ' || c == '\t' || c == '\n' || c == '\r' || c == ','
}

/// Whether `c` ends an atom token.
pub open spec fn is_atom_break(c: char) -> bool {
    is_separator(c) || c == '(' || c == ')' || c == '"' || c == ';'
}

/// The index just past a string token whose content starts at `i` (the
/// opening quote sits at `i - 1`).  A backslash escapes the next character;
/// the next unescaped quote closes the token; an unterminated string runs
/// to the end of the input and is still a token.
pub open spec fn str_tok_end(s: Seq<char>, i: int) -> int
    decreases s.len() - i,
{
    if i < 0 || i >= s.len() {
        s.len() as int
    } else if s[i] == '\\' {
        if i + 1 < s.len() {
            str_tok_end(s, i + 2)
        } else {
            s.len() as int
        }
    } else if s[i] == '"' {
        i + 1
    } else {
        str_tok_end(s, i + 1)
    }
}

/// The index just past the atom token starting before or at `i`.
pub open spec fn atom_end(s: Seq<char>, i: int) -> int
    decreases s.len() - i,
{
    if i < 0 || i >= s.len() || is_atom_break(s[i]) {
        i
    } else {
        atom_end(s, i + 1)
    }
}

/// The index of the line break ending a comment, or the end of input.
pub open spec fn comment_end(s: Seq<char>, i: int) -> int
    decreases s.len() - i,
{
    if i < 0 || i >= s.len() || s[i] == '\n' {
        i
    } else {
        comment_end(s, i + 1)
    }
}

/// `str_tok_end` stays within the input and past its start.
pub proof fn lemma_str_tok_end_bounds(s: Seq<char>, i: int)
    requires
        0 <= i <= s.len(),
    ensures
        i <= str_tok_end(s, i) <= s.len(),
    decreases s.len() - i,
{
    if i < s.len() {
        if s[i] == '\\' {
            if i + 1 < s.len() {
                lemma_str_tok_end_bounds(s, i + 2);
            }
        } else if s[i] != '"' {
            lemma_str_tok_end_bounds(s, i + 1);
        }
    }
}

/// `atom_end` stays within the input and past its start.
pub proof fn lemma_atom_end_bounds(s: Seq<char>, i: int)
    requires
        0 <= i <= s.len(),
    ensures
        i <= atom_end(s, i) <= s.len(),
    decreases s.len() - i,
{
    if i < s.len() && !is_atom_break(s[i]) {
        lemma_atom_end_bounds(s, i + 1);
    }
}

/// `comment_end` stays within the input and past its start.
pub proof fn lemma_comment_end_bounds(s: Seq<char>, i: int)
    requires
        0 <= i <= s.len(),
    ensures
        i <= comment_end(s, i) <= s.len(),
    decreases s.len() - i,
{
    if i < s.len() && s[i] != '\n' {
        lemma_comment_end_bounds(s, i + 1);
    }
}

/// The raw tokens of the input from `i` on: separators are skipped, `(`
/// and `)` stand alone, a `;` discards the rest of the line, `"` opens a
/// string token, and anything else is an atom run.
pub open spec fn spec_tokens(s: Seq<char>, i: int) -> Seq<Seq<char>>
    decreases s.len() - i,
{
    if i < 0 || i >= s.len() {
        Seq::empty()
    } else if is_separator(s[i]) {
        spec_tokens(s, i + 1)
    } else if s[i] == '(' || s[i] == ')' {
        seq![s.subrange(i, i + 1)] + spec_tokens(s, i + 1)
    } else if s[i] == ';' {
        proof {
            lemma_comment_end_bounds(s, i + 1);
        }
        spec_tokens(s, comment_end(s, i + 1))
    } else if s[i] == '"' {
        proof {
            lemma_str_tok_end_bounds(s, i + 1);
        }
        let e = str_tok_end(s, i + 1);
        seq![s.subrange(i, e)] + spec_tokens(s, e)
    } else {
        proof {
            lemma_atom_end_bounds(s, i + 1);
        }
        let e = atom_end(s, i + 1);
        seq![s.subrange(i, e)] + spec_tokens(s, e)
    }
}

/// What an atom token means: an integer if it looks and parses like one; a
/// string if quoted on both ends (quotes stripped, no unescaping); the
/// three reserved constants; else a symbol.
pub open spec fn spec_read_atom(t: Seq<char>) -> Val {
    if t.len() > 0 && (is_digit(t[0]) || t[0] == '-') && spec_parse_i32(t) is Some {
        match spec_parse_i32(t) {
            Some(v) => Val::Int(v),
            None => Val::Nil,
        }
    } else if t.len() >= 2 && t[0] == '"' && t.last() == '"' {
        Val::Str(t.subrange(1, t.len() - 1))
    } else if t == "true"@ {
        Val::Bool(true)
    } else if t == "false"@ {
        Val::Bool(false)
    } else if t == "nil"@ {
        Val::Nil
    } else {
        Val::Symbol(t)
    }
}

/// One complete form starting at token `pos`: `None` is a read error (out
/// of tokens, an empty token, or a stray closing token).
pub open spec fn spec_read_form(tokens: Seq<Seq<char>>, pos: int) -> Option<(Val, int)>
    decreases tokens.len() - pos, 0int,
{
    if pos < 0 || pos >= tokens.len() {
        None
    } else if tokens[pos].len() == 0 {
        None
    } else if tokens[pos][0] == '(' {
        match spec_read_list(tokens, pos + 1) {
            None => None,
            Some((items, p2)) => Some((Val::List(items), p2)),
        }
    } else if tokens[pos][0] == ')' {
        None
    } else {
        Some((spec_read_atom(tokens[pos]), pos + 1))
    }
}

/// The elements of a list from token `pos` up to its closing token.
pub open spec fn spec_read_list(tokens: Seq<Seq<char>>, pos: int) -> Option<(Seq<Val>, int)>
    decreases tokens.len() - pos, 1int,
{
    if pos < 0 || pos >= tokens.len() {
        None
    } else if tokens[pos].len() == 0 {
        None
    } else if tokens[pos][0] == ')' {
        Some((Seq::empty(), pos + 1))
    } else {
        match spec_read_form(tokens, pos) {
            None => None,
            Some((v, p2)) => if p2 <= pos || p2 > tokens.len() {
                None
            } else {
                match spec_read_list(tokens, p2) {
                    None => None,
                    Some((rest, p3)) => Some((seq![v] + rest, p3)),
                }
            },
        }
    }
}

/// Whether `c` separates tokens.
fn is_sep_char(c: char) -> (r: bool)
    ensures
        r == is_separator(c),
{
    c == ' ' || c == '\t' || c == '\n' || c == '\r' || c == ','
}

/// Whether `c` ends an atom token.
fn is_break_char(c: char) -> (r: bool)
    ensures
        r == is_atom_break(c),
{
    is_sep_char(c) || c == '(' || c == ')' || c == '"' || c == ';'
}

/// Scans past a string token's content, against `str_tok_end`.
fn scan_str(s: &str, i: usize) -> (e: usize)
    requires
        i <= s@.len(),
    ensures
        e as int == str_tok_end(s@, i as int),
        i <= e <= s@.len(),
    decreases s@.len() - i,
{
    let len = s.unicode_len();
    if i >= len {
        return len;
    }
    let c = s.get_char(i);
    if c == '\\' {
        if i + 1 < len {
            scan_str(s, i + 2)
        } else {
            len
        }
    } else if c == '"' {
        i + 1
    } else {
        scan_str(s, i + 1)
    }
}

/// Scans past an atom run, against `atom_end`.
fn scan_atom(s: &str, i: usize) -> (e: usize)
    requires
        i <= s@.len(),
    ensures
        e as int == atom_end(s@, i as int),
        i <= e <= s@.len(),
    decreases s@.len() - i,
{
    let len = s.unicode_len();
    if i >= len {
        return i;
    }
    if is_break_char(s.get_char(i)) {
        i
    } else {
        scan_atom(s, i + 1)
    }
}

/// Scans past a comment, against `comment_end`.
fn scan_comment(s: &str, i: usize) -> (e: usize)
    requires
        i <= s@.len(),
    ensures
        e as int == comment_end(s@, i as int),
        i <= e <= s@.len(),
    decreases s@.len() - i,
{
    let len = s.unicode_len();
    if i >= len {
        return i;
    }
    if s.get_char(i) == '\n' {
        i
    } else {
        scan_comment(s, i + 1)
    }
}

/// An ordered token stream and a cursor into it.
pub struct Reader {
    /// The tokens, in input order, wrapped in an implicit `( do ... )`.
    pub tokens: Vec<String>,
    position: usize,
}

impl Reader {
    /// The cursor: the index of the next token to be read.
    pub closed spec fn pos(self) -> int {
        self.position as int
    }

    /// The token texts.
    pub closed spec fn toks(self) -> Seq<Seq<char>> {
        strs_view(self.tokens@)
    }

    /// Splits the input into tokens, against `spec_tokens`, and wraps all
    /// top-level forms in one implicit `( do ... )` so that several forms
    /// evaluate left to right and the whole input has one value.
    pub fn tokenize(input: String) -> (r: Reader)
        ensures
            r.toks() == seq!["("@, "do"@] + spec_tokens(input@, 0) + seq![")"@],
            r.pos() == 0,
    {
        let s = input.as_str();
        let len = s.unicode_len();
        let mut tokens: Vec<String> = Vec::new();
        tokens.push("(".to_owned());
        tokens.push("do".to_owned());
        proof {
            assert(strs_view(tokens@) =~= seq!["("@, "do"@]);
        }
        let mut i: usize = 0;
        while i < len
            invariant
                i <= len,
                len == s@.len(),
                s@ == input@,
                strs_view(tokens@) + spec_tokens(s@, i as int) =~= seq!["("@, "do"@]
                    + spec_tokens(s@, 0),
            decreases len - i,
        {
            let ghost toks0 = strs_view(tokens@);
            let c = s.get_char(i);
            if is_sep_char(c) {
                i = i + 1;
            } else if c == '(' || c == ')' {
                let tok = s.substring_char(i, i + 1);
                tokens.push(tok.to_owned());
                proof {
                    assert(strs_view(tokens@) =~= toks0 + seq![s@.subrange(
                        i as int,
                        i as int + 1,
                    )]);
                    assert(strs_view(tokens@) + spec_tokens(s@, i as int + 1) =~= seq![
                        "("@,
                        "do"@,
                    ] + spec_tokens(s@, 0));
                }
                i = i + 1;
            } else if c == ';' {
                let e = scan_comment(s, i + 1);
                i = e;
            } else if c == '"' {
                let e = scan_str(s, i + 1);
                let tok = s.substring_char(i, e);
                tokens.push(tok.to_owned());
                proof {
                    assert(strs_view(tokens@) =~= toks0 + seq![s@.subrange(i as int, e as int)]);
                    assert(strs_view(tokens@) + spec_tokens(s@, e as int) =~= seq!["("@, "do"@]
                        + spec_tokens(s@, 0));
                }
                i = e;
            } else {
                let e = scan_atom(s, i + 1);
                let tok = s.substring_char(i, e);
                tokens.push(tok.to_owned());
                proof {
                    assert(strs_view(tokens@) =~= toks0 + seq![s@.subrange(i as int, e as int)]);
                    assert(strs_view(tokens@) + spec_tokens(s@, e as int) =~= seq!["("@, "do"@]
                        + spec_tokens(s@, 0));
                }
                i = e;
            }
        }
        let ghost toks1 = strs_view(tokens@);
        tokens.push(")".to_owned());
        proof {
            assert(strs_view(tokens@) =~= toks1 + seq![")"@]);
            assert(strs_view(tokens@) =~= seq!["("@, "do"@] + spec_tokens(input@, 0) + seq![
                ")"@,
            ]);
        }
        Reader { tokens, position: 0 }
    }

    /// Hands out the next token and advances the cursor; a read error when
    /// the tokens have run out.
    fn next(&mut self) -> (r: Result<String, LispError>)
        ensures
            final(self).toks() == old(self).toks(),
            match r {
                Ok(t) => old(self).pos() < old(self).toks().len() && t@ == old(self).toks()[old(
                    self,
                ).pos()] && final(self).pos() == old(self).pos() + 1,
                Err(e) => old(self).pos() >= old(self).toks().len() && final(self).pos() == old(
                    self,
                ).pos() && e@ matches ErrVal::ReaderError(_),
            },
    {
        if self.position >= self.tokens.len() {
            return Err(reader_error("the input ran out before a form was complete"));
        }
        let t = self.tokens[self.position].clone();
        self.position = self.position + 1;
        Ok(t)
    }

    /// Looks at the next token without advancing.
    fn peek(&self) -> (r: Result<String, LispError>)
        ensures
            match r {
                Ok(t) => self.pos() < self.toks().len() && t@ == self.toks()[self.pos()],
                Err(e) => self.pos() >= self.toks().len() && e@ matches ErrVal::ReaderError(_),
            },
    {
        if self.position >= self.tokens.len() {
            return Err(reader_error("the input ran out before a form was complete"));
        }
        Ok(self.tokens[self.position].clone())
    }

    /// Reads one complete form at the cursor, against `spec_read_form`:
    /// a list on `(`, an error on a stray `)`, otherwise one atom.  A read
    /// value never contains a function.
    pub fn read_form(&mut self) -> (r: Result<LispType, LispError>)
        ensures
            final(self).toks() == old(self).toks(),
            match r {
                Ok(v) => {
                    &&& spec_read_form(old(self).toks(), old(self).pos()) == Some(
                        (v@, final(self).pos()),
                    )
                    &&& old(self).pos() < final(self).pos() <= old(self).toks().len()
                    &&& val_wf(v@, 0)
                },
                Err(e) => spec_read_form(old(self).toks(), old(self).pos()) is None && e@ matches
                    ErrVal::ReaderError(_),
            },
        decreases old(self).toks().len() - old(self).pos(), 1int,
    {
        let tok = match self.peek() {
            Ok(t) => t,
            Err(e) => {
                return Err(e);
            }
        };
        if tok.as_str().unicode_len() == 0 {
            return Err(reader_error("an empty token cannot be read"));
        }
        let c = tok.as_str().get_char(0);
        if c == '(' {
            self.read_list()
        } else if c == ')' {
            Err(reader_error("a closing token appeared with no open list"))
        } else {
            self.read_atom()
        }
    }

    /// Reads a whole list: consumes the opening token, the elements, and
    /// the closing token.
    fn read_list(&mut self) -> (r: Result<LispType, LispError>)
        requires
            old(self).pos() < old(self).toks().len(),
            old(self).toks()[old(self).pos()].len() > 0,
            old(self).toks()[old(self).pos()][0] == '(',
        ensures
            final(self).toks() == old(self).toks(),
            match r {
                Ok(v) => {
                    &&& spec_read_form(old(self).toks(), old(self).pos()) == Some(
                        (v@, final(self).pos()),
                    )
                    &&& old(self).pos() < final(self).pos() <= old(self).toks().len()
                    &&& val_wf(v@, 0)
                },
                Err(e) => spec_read_form(old(self).toks(), old(self).pos()) is None && e@ matches
                    ErrVal::ReaderError(_),
            },
        decreases old(self).toks().len() - old(self).pos(), 0int,
    {
        let _ = self.next();
        match self.read_list_items() {
            Err(e) => Err(e),
            Ok(items) => {
                let ghost model = vals_seq(items@);
                proof {
                    assert(val_of(LispType::List(items))->List_0 =~= model);
                }
                Ok(LispType::List(items))
            }
        }
    }

    /// Reads list elements up to and including the closing token.
    fn read_list_items(&mut self) -> (r: Result<Vec<LispType>, LispError>)
        ensures
            final(self).toks() == old(self).toks(),
            match r {
                Ok(items) => {
                    &&& spec_read_list(old(self).toks(), old(self).pos()) == Some(
                        (vals_seq(items@), final(self).pos()),
                    )
                    &&& old(self).pos() < final(self).pos() <= old(self).toks().len()
                    &&& vals_wf(vals_seq(items@), 0, 0)
                },
                Err(e) => spec_read_list(old(self).toks(), old(self).pos()) is None && e@ matches
                    ErrVal::ReaderError(_),
            },
        decreases old(self).toks().len() - old(self).pos(), 2int,
    {
        let tok = match self.peek() {
            Ok(t) => t,
            Err(e) => {
                return Err(e);
            }
        };
        if tok.as_str().unicode_len() == 0 {
            return Err(reader_error("an empty token cannot be read"));
        }
        if tok.as_str().get_char(0) == ')' {
            let _ = self.next();
            let items: Vec<LispType> = Vec::new();
            proof {
                assert(vals_seq(items@) =~= Seq::<Val>::empty());
            }
            return Ok(items);
        }
        match self.read_form() {
            Err(e) => Err(e),
            Ok(v) => {
                match self.read_list_items() {
                    Err(e) => Err(e),
                    Ok(mut rest) => {
                        let ghost rest0 = vals_seq(rest@);
                        rest.insert(0, v);
                        proof {
                            assert(vals_seq(rest@) =~= seq![v@] + rest0);
                            lemma_vals_wf_index(rest0, 0, 0);
                            lemma_vals_wf_index(vals_seq(rest@), 0, 0);
                            assert forall|i: int|
                                0 <= i < vals_seq(rest@).len() implies val_wf(
                                #[trigger] vals_seq(rest@)[i],
                                0,
                            ) by {
                                if i > 0 {
                                    assert(vals_seq(rest@)[i] == rest0[i - 1]);
                                }
                            }
                        }
                        Ok(rest)
                    }
                }
            }
        }
    }

    /// Reads one atom token, against `spec_read_atom`.
    fn read_atom(&mut self) -> (r: Result<LispType, LispError>)
        requires
            old(self).pos() < old(self).toks().len(),
            old(self).toks()[old(self).pos()].len() > 0,
            old(self).toks()[old(self).pos()][0] != '(',
            old(self).toks()[old(self).pos()][0] != ')',
        ensures
            final(self).toks() == old(self).toks(),
            match r {
                Ok(v) => {
                    &&& spec_read_form(old(self).toks(), old(self).pos()) == Some(
                        (v@, final(self).pos()),
                    )
                    &&& old(self).pos() < final(self).pos() <= old(self).toks().len()
                    &&& val_wf(v@, 0)
                },
                Err(e) => spec_read_form(old(self).toks(), old(self).pos()) is None && e@ matches
                    ErrVal::ReaderError(_),
            },
        decreases old(self).toks().len() - old(self).pos(), 0int,
    {
        let tok = match self.next() {
            Ok(t) => t,
            Err(e) => {
                return Err(e);
            }
        };
        let ghost t = tok@;
        let s = tok.as_str();
        let len = s.unicode_len();
        let first = s.get_char(0);
        if is_digit_char(first) || first == '-' {
            match parse_i32(s) {
                Some(v) => {
                    return Ok(LispType::Int(v));
                }
                None => {}
            }
        }
        if first == '"' && len >= 2 && s.get_char(len - 1) == '"' {
            let inner = s.substring_char(1, len - 1);
            return Ok(LispType::Str(inner.to_owned()));
        }
        if str_eq(s, "true") {
            return Ok(LispType::Bool(true));
        }
        if str_eq(s, "false") {
            return Ok(LispType::Bool(false));
        }
        if str_eq(s, "nil") {
            return Ok(LispType::Nil);
        }
        Ok(LispType::Symbol(tok))
    }
}

/// Whether `c` is an ASCII decimal digit.
fn is_digit_char(c: char) -> (r: bool)
    ensures
        r == is_digit(c),
{
    let u = c as u32;
    48 <= u && u <= 57
}

} // verus!
