//! Builds forms from the tokens of a source text.

use crate::cons::List;
use crate::lexer::{LexError, Lexer, Token, TokenModel, next_token_spec};
use crate::native::{lemma_links_wf_from_elems, nil_obj};
use crate::object::{LispObject, Symbol};
use vstd::prelude::*;

verus! {

/// Why no form could be read.
#[derive(Debug, PartialEq, Eq, Clone, Copy)]
pub enum ReadError {
    /// The input ended inside a form.
    Eof,
    /// An integer literal does not fit in 64 bits.
    IntegerOverflow,
    /// A `)` with no `(` to close.
    UnbalancedParens,
    /// A character that starts no token.
    UnexpectedToken,
}

/// Whether a read failed because the input ended inside a form.
pub fn is_read_eof<T>(result: &Result<T, ReadError>) -> (r: bool)
    ensures
        r == (result matches Err(ReadError::Eof)),
{
    match result {
        Err(ReadError::Eof) => true,
        _ => false,
    }
}

fn from_lex(e: LexError) -> (r: ReadError)
    ensures
        e == LexError::Eof ==> r == ReadError::Eof,
        e == LexError::IntegerOverflow ==> r == ReadError::IntegerOverflow,
{
    match e {
        LexError::Eof => ReadError::Eof,
        LexError::IntegerOverflow => ReadError::IntegerOverflow,
    }
}

/// The atom that a token reads as: `nil` is the empty list, `t` is true.
pub open spec fn trivial_form_of(o: LispObject, t: TokenModel) -> bool {
    match t {
        TokenModel::Symbol(s) => if s == "nil"@ {
            o == nil_obj()
        } else if s == "t"@ {
            o == LispObject::T
        } else {
            o is Symbol && o->Symbol_0@ == s
        },
        TokenModel::IntegerLiteral(i) => o is Integer && o->Integer_0 == i,
        TokenModel::StringLiteral(s) => o is String && o->String_0@ == s,
        _ => false,
    }
}

/// A token that reads as an atom.
pub open spec fn is_trivial(t: TokenModel) -> bool {
    t is Symbol || t is IntegerLiteral || t is StringLiteral
}

/// The read error for a lexing error.
pub open spec fn read_err_of(e: LexError) -> ReadError {
    match e {
        LexError::Eof => ReadError::Eof,
        LexError::IntegerOverflow => ReadError::IntegerOverflow,
    }
}

/// The form `o` is read from the text `s` starting at `pos`, and reading ends at `end`.
pub open spec fn form_reads(o: LispObject, s: Seq<char>, pos: int, end: int) -> bool
    decreases s.len() - pos, 1nat,
{
    let (t, p1) = next_token_spec(s, pos);
    if 0 <= pos && pos < p1 && p1 <= s.len() {
        match t {
            Ok(m) => if is_trivial(m) {
                trivial_form_of(o, m) && end == p1
            } else if m is LeftPar {
                o is List && list_reads(o->List_0@, s, p1, end)
            } else {
                false
            },
            Err(_) => false,
        }
    } else {
        false
    }
}

/// The forms `items` and then a closing `)` are read from `s` starting at
/// `pos`, and reading ends just past the `)` at `end`.
pub open spec fn list_reads(items: Seq<LispObject>, s: Seq<char>, pos: int, end: int) -> bool
    decreases s.len() - pos, 2nat,
{
    let (t, p1) = next_token_spec(s, pos);
    if 0 <= pos && pos < p1 && p1 <= s.len() {
        match t {
            Ok(TokenModel::RightPar) => items.len() == 0 && end == p1,
            Ok(_) => items.len() > 0 && exists|mid: int|
                #[trigger] crate::semantics::witness(mid) && pos < mid && mid <= s.len() && form_reads(
                    items[0],
                    s,
                    pos,
                    mid,
                ) && list_reads(items.skip(1), s, mid, end),
            Err(_) => false,
        }
    } else {
        false
    }
}

/// The forms `items` are read one after another from `pos` to `cur`.
pub open spec fn items_read(items: Seq<LispObject>, s: Seq<char>, pos: int, cur: int) -> bool
    decreases items.len(),
{
    if items.len() == 0 {
        cur == pos
    } else {
        exists|mid: int|
            #[trigger] crate::semantics::witness(mid) && pos < mid && mid <= s.len() && form_reads(
                items[0],
                s,
                pos,
                mid,
            ) && items_read(items.skip(1), s, mid, cur)
    }
}

/// Reading the rest of a list from `pos` fails with `e`.
pub open spec fn list_fails(s: Seq<char>, pos: int, e: ReadError) -> bool
    decreases s.len() - pos, 2nat,
{
    let (t, p1) = next_token_spec(s, pos);
    match t {
        Err(le) => e == read_err_of(le),
        Ok(TokenModel::RightPar) => false,
        Ok(TokenModel::Unexpected) => e == ReadError::UnexpectedToken,
        Ok(m) => 0 <= pos && pos < p1 && p1 <= s.len() && ((m is LeftPar && list_fails(s, p1, e))
            || exists|mid: int, o: LispObject|
            #[trigger] crate::semantics::witness((mid, o)) && pos < mid && mid <= s.len()
                && form_reads(o, s, pos, mid) && list_fails(s, mid, e)),
    }
}

/// Reading a form from `pos` fails with `e`.
pub open spec fn form_fails(s: Seq<char>, pos: int, e: ReadError) -> bool {
    let (t, p1) = next_token_spec(s, pos);
    match t {
        Err(LexError::IntegerOverflow) => e == ReadError::IntegerOverflow,
        Err(LexError::Eof) => false,
        Ok(TokenModel::RightPar) => e == ReadError::UnbalancedParens,
        Ok(TokenModel::Unexpected) => e == ReadError::UnexpectedToken,
        Ok(TokenModel::LeftPar) => 0 <= pos && pos < p1 && p1 <= s.len() && list_fails(s, p1, e),
        Ok(_) => false,
    }
}

/// One more form read after the others.
pub proof fn lemma_items_push(items: Seq<LispObject>, o: LispObject, s: Seq<char>, pos: int, cur: int, c2: int)
    requires
        items_read(items, s, pos, cur),
        form_reads(o, s, cur, c2),
        cur < c2 <= s.len(),
    ensures
        items_read(items.push(o), s, pos, c2),
    decreases items.len(),
{
    if items.len() == 0 {
        assert(items.push(o).skip(1) =~= Seq::<LispObject>::empty());
        assert(items.push(o)[0] == o);
        assert(items_read(items.push(o).skip(1), s, c2, c2));
        assert(crate::semantics::witness(c2));
    } else {
        let mid = choose|mid: int|
            #[trigger] crate::semantics::witness(mid) && pos < mid && mid <= s.len() && form_reads(
                items[0],
                s,
                pos,
                mid,
            ) && items_read(items.skip(1), s, mid, cur);
        lemma_items_push(items.skip(1), o, s, mid, cur, c2);
        assert(items.push(o).skip(1) =~= items.skip(1).push(o));
        assert(items.push(o)[0] == items[0]);
        assert(crate::semantics::witness(mid));
    }
}

/// Forms read one after another, then the rest of a list, read as one list.
pub proof fn lemma_items_list(items: Seq<LispObject>, rest: Seq<LispObject>, s: Seq<char>, pos: int, cur: int, end: int)
    requires
        items_read(items, s, pos, cur),
        list_reads(rest, s, cur, end),
    ensures
        list_reads(items + rest, s, pos, end),
    decreases items.len(),
{
    if items.len() == 0 {
        assert(items + rest =~= rest);
    } else {
        let mid = choose|mid: int|
            #[trigger] crate::semantics::witness(mid) && pos < mid && mid <= s.len() && form_reads(
                items[0],
                s,
                pos,
                mid,
            ) && items_read(items.skip(1), s, mid, cur);
        lemma_items_list(items.skip(1), rest, s, mid, cur, end);
        assert((items + rest).skip(1) =~= items.skip(1) + rest);
        assert((items + rest)[0] == items[0]);
        assert(crate::semantics::witness(mid));
    }
}

/// Forms read one after another, then a failure: the list fails.
pub proof fn lemma_items_fail(items: Seq<LispObject>, s: Seq<char>, pos: int, cur: int, e: ReadError)
    requires
        items_read(items, s, pos, cur),
        list_fails(s, cur, e),
    ensures
        list_fails(s, pos, e),
    decreases items.len(),
{
    if items.len() > 0 {
        let mid = choose|mid: int|
            #[trigger] crate::semantics::witness(mid) && pos < mid && mid <= s.len() && form_reads(
                items[0],
                s,
                pos,
                mid,
            ) && items_read(items.skip(1), s, mid, cur);
        lemma_items_fail(items.skip(1), s, mid, cur, e);
        assert(crate::semantics::witness((mid, items[0])));
    }
}

/// A reader of forms over a source text.
pub struct Reader {
    pub lexer: Lexer,
}

impl Reader {
    pub open spec fn wf(&self) -> bool {
        self.lexer.wf()
    }

    /// A reader at the start of `r`.
    pub fn create(r: &str) -> (rd: Reader)
        ensures
            rd.wf(),
            rd.lexer.chars@ == r@,
            rd.lexer.pos == 0,
    {
        Reader { lexer: Lexer::create(r) }
    }

    fn tok_to_trivial_form(tok: &Token) -> (r: Option<LispObject>)
        ensures
            r is Some <==> is_trivial(crate::lexer::token_model(*tok)),
            r is Some ==> trivial_form_of(r->0, crate::lexer::token_model(*tok)) && r->0.wf(),
    {
        match tok {
            Token::Symbol(s) => {
                let nil_text = "nil".to_string();
                let t_text = "t".to_string();
                if *s == nil_text {
                    Some(LispObject::List(List { head: None, length: 0 }))
                } else if *s == t_text {
                    Some(LispObject::T)
                } else {
                    Some(LispObject::Symbol(Symbol::from_string(s.clone())))
                }
            },
            Token::IntegerLiteral(i) => Some(LispObject::Integer(*i)),
            Token::StringLiteral(s) => Some(LispObject::String(s.clone())),
            _ => None,
        }
    }

    /// Reads the elements of a list whose `(` was just read, up to its `)`.
    fn read_list_form(&mut self) -> (r: Result<LispObject, ReadError>)
        requires
            old(self).wf(),
        ensures
            final(self).wf(),
            final(self).lexer.chars == old(self).lexer.chars,
            final(self).lexer.pos >= old(self).lexer.pos,
            r is Ok ==> r->Ok_0.wf() && r->Ok_0 is List,
            r is Ok ==> list_reads(
                r->Ok_0->List_0@,
                old(self).lexer.chars@,
                old(self).lexer.pos as int,
                final(self).lexer.pos as int,
            ),
            r is Err ==> list_fails(old(self).lexer.chars@, old(self).lexer.pos as int, r->Err_0),
        decreases old(self).lexer.chars@.len() - old(self).lexer.pos,
    {
        let mut items: Vec<LispObject> = Vec::new();
        let ghost s = self.lexer.chars@;
        let ghost start = self.lexer.pos as int;
        loop
            invariant
                self.wf(),
                self.lexer.chars == old(self).lexer.chars,
                self.lexer.pos >= old(self).lexer.pos,
                forall|i: int| 0 <= i < items@.len() ==> (#[trigger] items@[i]).wf(),
                s == self.lexer.chars@,
                start == old(self).lexer.pos,
                items_read(items@, s, start, self.lexer.pos as int),
            decreases self.lexer.chars@.len() - self.lexer.pos,
        {
            let ghost cur = self.lexer.pos as int;
            let tok = match self.lexer.next_token() {
                Ok(t) => t,
                Err(e) => {
                    let re = from_lex(e);
                    proof {
                        assert(list_fails(s, cur, re));
                        lemma_items_fail(items@, s, start, cur, re);
                    }
                    return Err(re);
                },
            };
            let ghost p1 = self.lexer.pos as int;
            match Self::tok_to_trivial_form(&tok) {
                Some(f) => {
                    proof {
                        assert(form_reads(f, s, cur, p1));
                        lemma_items_push(items@, f, s, start, cur, p1);
                    }
                    items.push(f);
                },
                None => match tok {
                    Token::LeftPar => {
                        let f = match self.read_list_form() {
                            Ok(f) => f,
                            Err(e) => {
                                proof {
                                    assert(list_fails(s, cur, e));
                                    lemma_items_fail(items@, s, start, cur, e);
                                }
                                return Err(e);
                            },
                        };
                        proof {
                            assert(form_reads(f, s, cur, self.lexer.pos as int));
                            lemma_items_push(items@, f, s, start, cur, self.lexer.pos as int);
                        }
                        items.push(f);
                    },
                    Token::RightPar => {
                        proof {
                            assert(list_reads(Seq::<LispObject>::empty(), s, cur, p1));
                            lemma_items_list(items@, Seq::<LispObject>::empty(), s, start, cur, p1);
                            assert(items@ + Seq::<LispObject>::empty() =~= items@);
                        }
                        let l = List::from_rev_iter(items);
                        proof {
                            assert forall|i: int| 0 <= i < crate::cons::link_view(l.head).len() implies (#[trigger] crate::cons::link_view(l.head)[i]).wf() by {
                                assert(crate::cons::link_view(l.head)[i] == items@[i]);
                            }
                            lemma_links_wf_from_elems(l.head);
                        }
                        return Ok(LispObject::List(l));
                    },
                    _ => {
                        proof {
                            assert(list_fails(s, cur, ReadError::UnexpectedToken));
                            lemma_items_fail(items@, s, start, cur, ReadError::UnexpectedToken);
                        }
                        return Err(ReadError::UnexpectedToken);
                    },
                },
            }
        }
    }

    /// Reads the next form: `None` when only blanks and comments are left.
    pub fn read_form(&mut self) -> (r: Result<Option<LispObject>, ReadError>)
        requires
            old(self).wf(),
        ensures
            final(self).wf(),
            final(self).lexer.chars == old(self).lexer.chars,
            r matches Ok(Some(o)) ==> o.wf(),
            r matches Ok(Some(_)) ==> final(self).lexer.pos > old(self).lexer.pos,
            r matches Ok(Some(o)) ==> form_reads(
                o,
                old(self).lexer.chars@,
                old(self).lexer.pos as int,
                final(self).lexer.pos as int,
            ),
            r is Err ==> form_fails(old(self).lexer.chars@, old(self).lexer.pos as int, r->Err_0),
            ({
                let t = next_token_spec(old(self).lexer.chars@, old(self).lexer.pos as int).0;
                &&& t == Err::<TokenModel, LexError>(LexError::Eof) ==> r == Ok::<Option<LispObject>, ReadError>(None)
                &&& t == Err::<TokenModel, LexError>(LexError::IntegerOverflow) ==> r == Err::<Option<LispObject>, ReadError>(ReadError::IntegerOverflow)
                &&& (t is Ok && is_trivial(t->Ok_0)) ==> (r matches Ok(Some(o)) && trivial_form_of(o, t->Ok_0))
                &&& t == Ok::<TokenModel, LexError>(TokenModel::RightPar) ==> r == Err::<Option<LispObject>, ReadError>(ReadError::UnbalancedParens)
                &&& t == Ok::<TokenModel, LexError>(TokenModel::Unexpected) ==> r == Err::<Option<LispObject>, ReadError>(ReadError::UnexpectedToken)
                &&& t == Ok::<TokenModel, LexError>(TokenModel::LeftPar) ==> (r is Ok ==> (r matches Ok(Some(o)) && o is List))
            }),
    {
        let tok = match self.lexer.next_token() {
            Ok(t) => t,
            Err(LexError::Eof) => return Ok(None),
            Err(LexError::IntegerOverflow) => return Err(ReadError::IntegerOverflow),
        };
        match Self::tok_to_trivial_form(&tok) {
            Some(f) => Ok(Some(f)),
            None => match tok {
                Token::LeftPar => {
                    let f = self.read_list_form()?;
                    Ok(Some(f))
                },
                Token::RightPar => Err(ReadError::UnbalancedParens),
                _ => Err(ReadError::UnexpectedToken),
            },
        }
    }
}

} // verus!
