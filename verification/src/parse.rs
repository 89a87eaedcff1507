//! The parser: one line of text to one [`Command`], or a structured error.
//!
//! The grammar is given twice. A family of spec functions (`sp_*`) defines,
//! over a `Seq<char>`, what each production accepts and what it leaves
//! unconsumed; the executable recursive-descent functions mirror them one for
//! one, and each carries an `ensures` tying it to its spec production.
//! [`spec_parse_line`] is therefore the meaning of [`parse_line`].
//!
//! Names and keywords are non-empty runs of ASCII identifier characters: a
//! name position holding no identifier character at all is an error carrying
//! what stood there ([`Error::Identifier`]), and a line that continues after
//! a complete command — for instance because a name was cut short by a
//! character outside the ASCII identifier class — is an error carrying the
//! first unread character ([`Error::Trailing`]).

use vstd::prelude::*;
use vstd::string::*;

use crate::numbers::{
    parse_positive_token, parse_signed_token, spec_parse_positive, spec_parse_signed,
};
use crate::text::{
    ascii_digit, identifier_char, is_ascii_digit, is_identifier_char, is_whitespace_char,
    push_char, text_is, whitespace_char,
};
use crate::{
    Command, CommandView, Criteria, DisplaySlot, Execute, ExecuteView, FunctionIdentifier,
    FunctionIdentifierView, If, IfView, Interval, Modification, ModificationView, Objectives,
    ObjectivesAdd, ObjectivesAddView, ObjectivesModify, ObjectivesModifyView, ObjectivesRemove,
    ObjectivesRemoveView, ObjectivesSetDisplay, ObjectivesSetDisplayView, ObjectivesView,
    OperationType, Players, PlayersAdd, PlayersAddView, PlayersEnable, PlayersEnableView,
    PlayersGet, PlayersGetView, PlayersList, PlayersListView, PlayersOperation,
    PlayersOperationView, PlayersRemove, PlayersRemoveView, PlayersReset, PlayersResetView,
    PlayersSet, PlayersSetView, PlayersView, RangeComparison, RangeComparisonView, RenderType,
    Score, ScoreView, Scoreboard, ScoreboardView, Selector, SelectorVariable, SourceComparison,
    SourceComparisonView, Target, TargetView,
};

verus! {

/// Why a line failed to parse.
#[derive(Debug, PartialEq, Eq, Copy, Clone)]
pub enum Error {
    /// A single expected character (usually a separating space, also `"`,
    /// `:` or `.`) was not found; the payload says what stood in its place.
    Space(Space),
    /// An identifier position held no identifier character at all; the
    /// payload is the offending character, or `None` at the end of the
    /// input.
    Identifier(Option<char>),
    /// A complete command was followed by more text; the payload is the
    /// first unread character.
    Trailing(char),
    /// A keyword position held a word that is not part of the grammar.
    UnknownKeyword,
    /// A numeric argument was empty, malformed, or out of `i32` range.
    InvalidInteger,
}

/// What stood where a single expected character should have been.
#[derive(Debug, PartialEq, Eq, Copy, Clone, Structural)]
pub enum Space {
    WhitespaceInstead,
    SymbolInstead,
    EOFInstead,
}

// ---------------------------------------------------------------------------
// Lexical layer, spec side.
// ---------------------------------------------------------------------------

/// The longest prefix of `s` whose characters satisfy `pred`, and the rest.
pub open spec fn sp_take(s: Seq<char>, pred: spec_fn(char) -> bool) -> (Seq<char>, Seq<char>)
    decreases s.len(),
{
    if s.len() > 0 && pred(s[0]) {
        let (tok, rest) = sp_take(s.drop_first(), pred);
        (seq![s[0]] + tok, rest)
    } else {
        (Seq::empty(), s)
    }
}

pub open spec fn ident_pred() -> spec_fn(char) -> bool {
    |c: char| is_identifier_char(c)
}

pub open spec fn not_char_pred(stop: char) -> spec_fn(char) -> bool {
    |c: char| c != stop
}

pub open spec fn digits_pred(allow_minus: bool) -> spec_fn(char) -> bool {
    |c: char| is_ascii_digit(c) || (allow_minus && c == '-')
}

/// An identifier token: the longest run of identifier characters, possibly
/// empty.
pub open spec fn sp_identifier(s: Seq<char>) -> (Seq<char>, Seq<char>) {
    sp_take(s, ident_pred())
}

/// The error for an identifier position holding no identifier character:
/// it carries what stood there, or `None` at the end of the input.
pub open spec fn sp_name_error(s: Seq<char>) -> Error {
    if s.len() == 0 {
        Error::Identifier(None)
    } else {
        Error::Identifier(Some(s[0]))
    }
}

/// A name or keyword token: a non-empty run of identifier characters. A
/// zero-length match is an error carrying the offending character.
pub open spec fn sp_name(s: Seq<char>) -> Result<(Seq<char>, Seq<char>), Error> {
    let (tok, rest) = sp_identifier(s);
    if tok.len() == 0 {
        Err(sp_name_error(s))
    } else {
        Ok((tok, rest))
    }
}

/// Everything up to (not counting) the next `stop` character or the end.
pub open spec fn sp_until(s: Seq<char>, stop: char) -> (Seq<char>, Seq<char>) {
    sp_take(s, not_char_pred(stop))
}

/// An operator token: everything up to the next space or the end.
pub open spec fn sp_operator(s: Seq<char>) -> (Seq<char>, Seq<char>) {
    sp_until(s, ' ')
}

/// A run of digit characters, with `-` also admitted when `allow_minus`.
pub open spec fn sp_digit_run(s: Seq<char>, allow_minus: bool) -> (Seq<char>, Seq<char>) {
    sp_take(s, digits_pred(allow_minus))
}

/// Consumes exactly the character `expected`, classifying what stood there
/// on failure.
pub open spec fn sp_expect(s: Seq<char>, expected: char) -> Result<Seq<char>, Error> {
    if s.len() == 0 {
        Err(Error::Space(Space::EOFInstead))
    } else if s[0] == expected {
        Ok(s.drop_first())
    } else if is_whitespace_char(s[0]) {
        Err(Error::Space(Space::WhitespaceInstead))
    } else {
        Err(Error::Space(Space::SymbolInstead))
    }
}

/// Consumes exactly one separating space.
pub open spec fn sp_space(s: Seq<char>) -> Result<Seq<char>, Error> {
    sp_expect(s, ' ')
}

/// A quoted string: `"` content `"`, where the content cannot hold a `"`.
pub open spec fn sp_string(s: Seq<char>) -> Result<(Seq<char>, Seq<char>), Error> {
    match sp_expect(s, '"') {
        Err(e) => Err(e),
        Ok(s1) => {
            let (content, s2) = sp_until(s1, '"');
            match sp_expect(s2, '"') {
                Err(e) => Err(e),
                Ok(s3) => Ok((content, s3)),
            }
        },
    }
}

/// A non-negative integer argument: a digit run read as an `i32`.
pub open spec fn sp_positive_integer(s: Seq<char>) -> Result<(i32, Seq<char>), Error> {
    let (tok, rest) = sp_digit_run(s, false);
    match spec_parse_positive(tok) {
        Some(v) => Ok((v, rest)),
        None => Err(Error::InvalidInteger),
    }
}

/// A signed integer argument: a run of digits and minus signs read as an
/// `i32`.
pub open spec fn sp_signed_integer(s: Seq<char>) -> Result<(i32, Seq<char>), Error> {
    let (tok, rest) = sp_digit_run(s, true);
    match spec_parse_signed(tok) {
        Some(v) => Ok((v, rest)),
        None => Err(Error::InvalidInteger),
    }
}

/// What `sp_take` produces: a prefix of `pred` characters and the suffix
/// starting with the first character that breaks the run.
pub proof fn lemma_sp_take_parts(s: Seq<char>, pred: spec_fn(char) -> bool)
    ensures
        sp_take(s, pred).0 + sp_take(s, pred).1 == s,
        sp_take(s, pred).1.len() <= s.len(),
        forall|i: int|
            0 <= i < sp_take(s, pred).0.len() ==> pred(#[trigger] sp_take(s, pred).0[i]),
        sp_take(s, pred).1.len() > 0 ==> !pred(sp_take(s, pred).1[0]),
    decreases s.len(),
{
    if s.len() > 0 && pred(s[0]) {
        lemma_sp_take_parts(s.drop_first(), pred);
        let tok = sp_take(s.drop_first(), pred).0;
        let rest = sp_take(s.drop_first(), pred).1;
        assert(tok + rest == s.drop_first());
        assert((seq![s[0]] + tok) + rest =~= seq![s[0]] + (tok + rest));
        assert(seq![s[0]] + s.drop_first() =~= s);
    } else {
        assert(sp_take(s, pred).0 + sp_take(s, pred).1 =~= s);
    }
}

/// `sp_take` on a run of `pred` characters followed by a boundary splits
/// exactly at the boundary.
pub proof fn lemma_sp_take_concat(w: Seq<char>, rest: Seq<char>, pred: spec_fn(char) -> bool)
    requires
        forall|i: int| 0 <= i < w.len() ==> pred(#[trigger] w[i]),
        rest.len() > 0 ==> !pred(rest[0]),
    ensures
        sp_take(w + rest, pred).0 == w,
        sp_take(w + rest, pred).1 == rest,
    decreases w.len(),
{
    let s = w + rest;
    if w.len() == 0 {
        assert(s =~= rest);
        assert(sp_take(s, pred).0 =~= w);
    } else {
        assert(s[0] == w[0]);
        assert(s.drop_first() =~= w.drop_first() + rest);
        lemma_sp_take_concat(w.drop_first(), rest, pred);
        assert(sp_take(s, pred).0 =~= seq![s[0]] + sp_take(s.drop_first(), pred).0);
        assert(seq![w[0]] + w.drop_first() =~= w);
    }
}

// ---------------------------------------------------------------------------
// Lexical layer, executable side.
// ---------------------------------------------------------------------------

/// A cursor over the characters of one line.
pub struct Input {
    chars: Vec<char>,
    current: usize,
}

impl Input {
    /// The cursor never stands past the end.
    pub closed spec fn wf(&self) -> bool {
        self.current <= self.chars@.len()
    }

    /// The characters not yet consumed.
    pub closed spec fn remaining(&self) -> Seq<char> {
        self.chars@.skip(self.current as int)
    }

    pub fn new(text: &str) -> (r: Input)
        ensures
            r.wf(),
            r.remaining() == text@,
    {
        let n = text.unicode_len();
        let mut chars: Vec<char> = Vec::new();
        let mut i: usize = 0;
        while i < n
            invariant
                i <= n,
                n == text@.len(),
                chars@ == text@.subrange(0, i as int),
            decreases n - i,
        {
            let c = text.get_char(i);
            chars.push(c);
            proof {
                assert(chars@ =~= text@.subrange(0, i + 1));
            }
            i += 1;
        }
        proof {
            assert(chars@ =~= text@);
        }
        let r = Input { chars, current: 0 };
        proof {
            assert(r.remaining() =~= r.chars@);
        }
        r
    }

    /// The next character, if any, without consuming it.
    fn peek(&self) -> (r: Option<char>)
        requires
            self.wf(),
        ensures
            r == if self.remaining().len() > 0 {
                Some(self.remaining()[0])
            } else {
                None::<char>
            },
    {
        if self.current < self.chars.len() {
            Some(self.chars[self.current])
        } else {
            None
        }
    }

    /// Consumes and returns the next character, if any.
    fn advance(&mut self) -> (r: Option<char>)
        requires
            old(self).wf(),
        ensures
            final(self).wf(),
            final(self).chars@ == old(self).chars@,
            r == if old(self).remaining().len() > 0 {
                Some(old(self).remaining()[0])
            } else {
                None::<char>
            },
            final(self).remaining() == if old(self).remaining().len() > 0 {
                old(self).remaining().drop_first()
            } else {
                old(self).remaining()
            },
    {
        if self.current < self.chars.len() {
            let c = self.chars[self.current];
            self.current = self.current + 1;
            proof {
                assert(self.chars@.skip(self.current as int) =~= old(
                    self,
                ).remaining().drop_first());
            }
            Some(c)
        } else {
            None
        }
    }
}

/// Scans a name or keyword: a non-empty run of identifier characters.
fn identifier(input: &mut Input) -> (r: Result<String, Error>)
    requires
        old(input).wf(),
    ensures
        final(input).wf(),
        match r {
            Ok(lexeme) => sp_name(old(input).remaining()) == Ok::<(Seq<char>, Seq<char>), Error>(
                (lexeme@, final(input).remaining()),
            ),
            Err(e) => sp_name(old(input).remaining()) == Err::<(Seq<char>, Seq<char>), Error>(e),
        },
{
    let first = input.peek();
    match first {
        None => {
            return Err(Error::Identifier(None));
        },
        Some(c) => {
            if !identifier_char(c) {
                return Err(Error::Identifier(Some(c)));
            }
        },
    }
    let ghost orig = input.remaining();
    let mut lexeme = String::new();
    let mut go = true;
    while go
        invariant
            input.wf(),
            orig == lexeme@ + input.remaining(),
            forall|i: int| 0 <= i < lexeme@.len() ==> is_identifier_char(#[trigger] lexeme@[i]),
            !go ==> (input.remaining().len() == 0 || !is_identifier_char(input.remaining()[0])),
        decreases input.remaining().len() + (if go {
            1int
        } else {
            0int
        }),
    {
        let next = input.peek();
        match next {
            Some(c) => {
                if identifier_char(c) {
                    input.advance();
                    push_char(&mut lexeme, c);
                    proof {
                        assert(orig =~= lexeme@ + input.remaining());
                    }
                } else {
                    go = false;
                }
            },
            None => {
                go = false;
            },
        }
    }
    proof {
        lemma_sp_take_concat(lexeme@, input.remaining(), ident_pred());
        assert(forall|i: int|
            0 <= i < lexeme@.len() ==> ident_pred()(#[trigger] lexeme@[i]));
        assert(lexeme@.len() > 0) by {
            assert(orig.len() > 0 && is_identifier_char(orig[0]));
            if lexeme@.len() == 0 {
                assert(input.remaining() =~= orig);
            }
        }
    }
    Ok(lexeme)
}

/// Scans everything up to the next `stop` character or the end.
fn take_until(input: &mut Input, stop: char) -> (r: String)
    requires
        old(input).wf(),
    ensures
        final(input).wf(),
        r@ == sp_until(old(input).remaining(), stop).0,
        final(input).remaining() == sp_until(old(input).remaining(), stop).1,
{
    let ghost orig = input.remaining();
    let mut lexeme = String::new();
    let mut go = true;
    while go
        invariant
            input.wf(),
            orig == lexeme@ + input.remaining(),
            forall|i: int| 0 <= i < lexeme@.len() ==> #[trigger] lexeme@[i] != stop,
            !go ==> (input.remaining().len() == 0 || input.remaining()[0] == stop),
        decreases input.remaining().len() + (if go {
            1int
        } else {
            0int
        }),
    {
        let next = input.peek();
        match next {
            Some(c) => {
                if c != stop {
                    input.advance();
                    push_char(&mut lexeme, c);
                    proof {
                        assert(orig =~= lexeme@ + input.remaining());
                    }
                } else {
                    go = false;
                }
            },
            None => {
                go = false;
            },
        }
    }
    proof {
        lemma_sp_take_concat(lexeme@, input.remaining(), not_char_pred(stop));
        assert(forall|i: int|
            0 <= i < lexeme@.len() ==> not_char_pred(stop)(#[trigger] lexeme@[i]));
    }
    lexeme
}

/// Scans a run of digits, with `-` also admitted when `allow_minus`.
fn take_digits(input: &mut Input, allow_minus: bool) -> (r: Vec<char>)
    requires
        old(input).wf(),
    ensures
        final(input).wf(),
        r@ == sp_digit_run(old(input).remaining(), allow_minus).0,
        final(input).remaining() == sp_digit_run(old(input).remaining(), allow_minus).1,
{
    let ghost orig = input.remaining();
    let mut lexeme: Vec<char> = Vec::new();
    let mut go = true;
    while go
        invariant
            input.wf(),
            orig == lexeme@ + input.remaining(),
            forall|i: int|
                0 <= i < lexeme@.len() ==> (is_ascii_digit(#[trigger] lexeme@[i]) || (allow_minus
                    && lexeme@[i] == '-')),
            !go ==> (input.remaining().len() == 0 || !(is_ascii_digit(input.remaining()[0]) || (
            allow_minus && input.remaining()[0] == '-'))),
        decreases input.remaining().len() + (if go {
            1int
        } else {
            0int
        }),
    {
        let next = input.peek();
        match next {
            Some(c) => {
                if ascii_digit(c) || (allow_minus && c == '-') {
                    input.advance();
                    lexeme.push(c);
                    proof {
                        assert(orig =~= lexeme@ + input.remaining());
                    }
                } else {
                    go = false;
                }
            },
            None => {
                go = false;
            },
        }
    }
    proof {
        lemma_sp_take_concat(lexeme@, input.remaining(), digits_pred(allow_minus));
        assert(forall|i: int|
            0 <= i < lexeme@.len() ==> digits_pred(allow_minus)(#[trigger] lexeme@[i]));
    }
    lexeme
}

/// Consumes exactly the character `expected`.
fn expect_char(input: &mut Input, expected: char) -> (r: Result<(), Error>)
    requires
        old(input).wf(),
    ensures
        final(input).wf(),
        match r {
            Ok(()) => sp_expect(old(input).remaining(), expected) == Ok::<Seq<char>, Error>(
                final(input).remaining(),
            ),
            Err(e) => sp_expect(old(input).remaining(), expected) == Err::<Seq<char>, Error>(e),
        },
{
    let next = input.peek();
    match next {
        Some(actual) => {
            if actual == expected {
                input.advance();
                Ok(())
            } else if whitespace_char(actual) {
                Err(Error::Space(Space::WhitespaceInstead))
            } else {
                Err(Error::Space(Space::SymbolInstead))
            }
        },
        None => Err(Error::Space(Space::EOFInstead)),
    }
}

/// Consumes exactly one separating space.
fn space(input: &mut Input) -> (r: Result<(), Error>)
    requires
        old(input).wf(),
    ensures
        final(input).wf(),
        match r {
            Ok(()) => sp_space(old(input).remaining()) == Ok::<Seq<char>, Error>(
                final(input).remaining(),
            ),
            Err(e) => sp_space(old(input).remaining()) == Err::<Seq<char>, Error>(e),
        },
{
    expect_char(input, ' ')
}

/// Scans a quoted string and yields its content.
fn string(input: &mut Input) -> (r: Result<String, Error>)
    requires
        old(input).wf(),
    ensures
        final(input).wf(),
        match r {
            Ok(content) => sp_string(old(input).remaining()) matches Ok(sp) && sp.0 == content@
                && sp.1 == final(input).remaining(),
            Err(e) => sp_string(old(input).remaining()) == Err::<(Seq<char>, Seq<char>), Error>(e),
        },
{
    match expect_char(input, '"') {
        Err(e) => Err(e),
        Ok(()) => {
            let content = take_until(input, '"');
            match expect_char(input, '"') {
                Err(e) => Err(e),
                Ok(()) => Ok(content),
            }
        },
    }
}

/// Scans an operator token: everything up to the next space or the end.
fn operator(input: &mut Input) -> (r: String)
    requires
        old(input).wf(),
    ensures
        final(input).wf(),
        r@ == sp_operator(old(input).remaining()).0,
        final(input).remaining() == sp_operator(old(input).remaining()).1,
{
    take_until(input, ' ')
}

/// Scans a non-negative integer argument.
fn positive_integer(input: &mut Input) -> (r: Result<i32, Error>)
    requires
        old(input).wf(),
    ensures
        final(input).wf(),
        match r {
            Ok(v) => sp_positive_integer(old(input).remaining()) == Ok::<(i32, Seq<char>), Error>(
                (v, final(input).remaining()),
            ),
            Err(e) => sp_positive_integer(old(input).remaining()) == Err::<(i32, Seq<char>), Error>(
                e,
            ),
        },
{
    let tok = take_digits(input, false);
    match parse_positive_token(&tok) {
        Some(v) => Ok(v),
        None => Err(Error::InvalidInteger),
    }
}

/// Scans a signed integer argument.
fn signed_integer(input: &mut Input) -> (r: Result<i32, Error>)
    requires
        old(input).wf(),
    ensures
        final(input).wf(),
        match r {
            Ok(v) => sp_signed_integer(old(input).remaining()) == Ok::<(i32, Seq<char>), Error>(
                (v, final(input).remaining()),
            ),
            Err(e) => sp_signed_integer(old(input).remaining()) == Err::<(i32, Seq<char>), Error>(
                e,
            ),
        },
{
    let tok = take_digits(input, true);
    match parse_signed_token(&tok) {
        Some(v) => Ok(v),
        None => Err(Error::InvalidInteger),
    }
}


// ---------------------------------------------------------------------------
// Grammar productions, spec side.
//
// Each production takes the unconsumed text and yields the parsed view and
// the rest, or the error of the first expectation that failed. Every name
// and keyword position demands a non-empty identifier. The cycle through
// `sp_command` (an `execute` condition carries a nested command) terminates
// because every step toward the nested command consumes at least one
// separating space.
// ---------------------------------------------------------------------------

pub open spec fn sp_command(s: Seq<char>) -> Result<(CommandView, Seq<char>), Error>
    decreases s.len(),
    via sp_command_dec
{
    match sp_name(s) {
        Err(e) => Err(e),
        Ok((kw, s1)) => if kw == "scoreboard"@ {
            match sp_space(s1) {
                Err(e) => Err(e),
                Ok(s2) => match sp_scoreboard(s2) {
                    Ok((v, s3)) => Ok((CommandView::Scoreboard(v), s3)),
                    Err(e) => Err(e),
                },
            }
        } else if kw == "function"@ {
            match sp_space(s1) {
                Err(e) => Err(e),
                Ok(s2) => match sp_function_identifier(s2) {
                    Ok((v, s3)) => Ok((CommandView::Function(v), s3)),
                    Err(e) => Err(e),
                },
            }
        } else if kw == "execute"@ {
            match sp_space(s1) {
                Err(e) => Err(e),
                Ok(s2) => match sp_execute(s2) {
                    Ok((v, s3)) => Ok((CommandView::Execute(v), s3)),
                    Err(e) => Err(e),
                },
            }
        } else {
            Err(Error::UnknownKeyword)
        },
    }
}

#[via_fn]
proof fn sp_command_dec(s: Seq<char>) {
    lemma_sp_take_parts(s, ident_pred());
}

pub open spec fn sp_scoreboard(s: Seq<char>) -> Result<(ScoreboardView, Seq<char>), Error> {
    match sp_name(s) {
        Err(e) => Err(e),
        Ok((kw, s1)) => if kw == "objectives"@ {
            match sp_space(s1) {
                Err(e) => Err(e),
                Ok(s2) => match sp_objectives(s2) {
                    Ok((v, s3)) => Ok((ScoreboardView::Objectives(v), s3)),
                    Err(e) => Err(e),
                },
            }
        } else if kw == "players"@ {
            match sp_space(s1) {
                Err(e) => Err(e),
                Ok(s2) => match sp_players(s2) {
                    Ok((v, s3)) => Ok((ScoreboardView::Players(v), s3)),
                    Err(e) => Err(e),
                },
            }
        } else {
            Err(Error::UnknownKeyword)
        },
    }
}

pub open spec fn sp_objectives(s: Seq<char>) -> Result<(ObjectivesView, Seq<char>), Error> {
    match sp_name(s) {
        Err(e) => Err(e),
        Ok((kw, s1)) => if kw == "add"@ {
            match sp_space(s1) {
                Err(e) => Err(e),
                Ok(s2) => match sp_objectives_add(s2) {
                    Ok((v, s3)) => Ok((ObjectivesView::Add(v), s3)),
                    Err(e) => Err(e),
                },
            }
        } else if kw == "list"@ {
            Ok((ObjectivesView::List, s1))
        } else if kw == "modify"@ {
            match sp_space(s1) {
                Err(e) => Err(e),
                Ok(s2) => match sp_objectives_modify(s2) {
                    Ok((v, s3)) => Ok((ObjectivesView::Modify(v), s3)),
                    Err(e) => Err(e),
                },
            }
        } else if kw == "remove"@ {
            match sp_space(s1) {
                Err(e) => Err(e),
                Ok(s2) => match sp_objectives_remove(s2) {
                    Ok((v, s3)) => Ok((ObjectivesView::Remove(v), s3)),
                    Err(e) => Err(e),
                },
            }
        } else if kw == "setdisplay"@ {
            match sp_space(s1) {
                Err(e) => Err(e),
                Ok(s2) => match sp_objectives_set_display(s2) {
                    Ok((v, s3)) => Ok((ObjectivesView::SetDisplay(v), s3)),
                    Err(e) => Err(e),
                },
            }
        } else {
            Err(Error::UnknownKeyword)
        },
    }
}

pub open spec fn sp_objectives_add(s: Seq<char>) -> Result<(ObjectivesAddView, Seq<char>), Error> {
    match sp_name(s) {
        Err(e) => Err(e),
        Ok((objective, s1)) => match sp_space(s1) {
            Err(e) => Err(e),
            Ok(s2) => match sp_criteria(s2) {
                Err(e) => Err(e),
                Ok((cr, s3)) => if s3.len() == 0 {
                    Ok(
                        (
                            ObjectivesAddView { objective, criteria: cr, display_name: None },
                            s3,
                        ),
                    )
                } else {
                    match sp_space(s3) {
                        Err(e) => Err(e),
                        Ok(s4) => match sp_string(s4) {
                            Err(e) => Err(e),
                            Ok((content, s5)) => Ok(
                                (
                                    ObjectivesAddView {
                                        objective,
                                        criteria: cr,
                                        display_name: Some(content),
                                    },
                                    s5,
                                ),
                            ),
                        },
                    }
                },
            },
        },
    }
}

pub open spec fn sp_criteria(s: Seq<char>) -> Result<(Criteria, Seq<char>), Error> {
    match sp_name(s) {
        Err(e) => Err(e),
        Ok((kw, s1)) => if kw == "dummy"@ {
            Ok((Criteria::Dummy, s1))
        } else {
            Err(Error::UnknownKeyword)
        },
    }
}

pub open spec fn sp_objectives_modify(s: Seq<char>) -> Result<
    (ObjectivesModifyView, Seq<char>),
    Error,
> {
    match sp_name(s) {
        Err(e) => Err(e),
        Ok((objective, s1)) => match sp_space(s1) {
            Err(e) => Err(e),
            Ok(s2) => match sp_modification(s2) {
                Err(e) => Err(e),
                Ok((m, s3)) => Ok((ObjectivesModifyView { objective, modification: m }, s3)),
            },
        },
    }
}

pub open spec fn sp_modification(s: Seq<char>) -> Result<(ModificationView, Seq<char>), Error> {
    match sp_name(s) {
        Err(e) => Err(e),
        Ok((kw, s1)) => if kw == "displayname"@ {
            match sp_space(s1) {
                Err(e) => Err(e),
                Ok(s2) => match sp_string(s2) {
                    Err(e) => Err(e),
                    Ok((content, s3)) => Ok((ModificationView::DisplayName(content), s3)),
                },
            }
        } else if kw == "rendertype"@ {
            match sp_space(s1) {
                Err(e) => Err(e),
                Ok(s2) => match sp_rendertype(s2) {
                    Err(e) => Err(e),
                    Ok((rt, s3)) => Ok((ModificationView::RenderType(rt), s3)),
                },
            }
        } else {
            Err(Error::UnknownKeyword)
        },
    }
}

pub open spec fn sp_rendertype(s: Seq<char>) -> Result<(RenderType, Seq<char>), Error> {
    match sp_name(s) {
        Err(e) => Err(e),
        Ok((kw, s1)) => if kw == "hearts"@ {
            Ok((RenderType::Hearts, s1))
        } else if kw == "integer"@ {
            Ok((RenderType::Integer, s1))
        } else {
            Err(Error::UnknownKeyword)
        },
    }
}

pub open spec fn sp_objectives_remove(s: Seq<char>) -> Result<
    (ObjectivesRemoveView, Seq<char>),
    Error,
> {
    match sp_name(s) {
        Err(e) => Err(e),
        Ok((objective, s1)) => Ok((ObjectivesRemoveView { objective }, s1)),
    }
}

pub open spec fn sp_objectives_set_display(s: Seq<char>) -> Result<
    (ObjectivesSetDisplayView, Seq<char>),
    Error,
> {
    match sp_display_slot(s) {
        Err(e) => Err(e),
        Ok((slot, s1)) => match sp_space(s1) {
            Err(e) => Err(e),
            Ok(s2) => match sp_name(s2) {
                Err(e) => Err(e),
                Ok((objective, s3)) => Ok((ObjectivesSetDisplayView { slot, objective }, s3)),
            },
        },
    }
}

pub open spec fn sp_display_slot(s: Seq<char>) -> Result<(DisplaySlot, Seq<char>), Error> {
    match sp_name(s) {
        Err(e) => Err(e),
        Ok((kw, s1)) => if kw == "belowName"@ {
            Ok((DisplaySlot::BelowName, s1))
        } else if kw == "list"@ {
            Ok((DisplaySlot::List, s1))
        } else if kw == "sidebar"@ {
            Ok((DisplaySlot::Sidebar, s1))
        } else {
            Err(Error::UnknownKeyword)
        },
    }
}

pub open spec fn sp_players(s: Seq<char>) -> Result<(PlayersView, Seq<char>), Error> {
    match sp_name(s) {
        Err(e) => Err(e),
        Ok((kw, s1)) => if kw == "add"@ {
            sp_players_add_cmd(s1)
        } else if kw == "enable"@ {
            sp_players_enable_cmd(s1)
        } else if kw == "get"@ {
            sp_players_get_cmd(s1)
        } else if kw == "list"@ {
            sp_players_list_cmd(s1)
        } else if kw == "operation"@ {
            sp_players_operation_cmd(s1)
        } else if kw == "remove"@ {
            sp_players_remove_cmd(s1)
        } else if kw == "reset"@ {
            sp_players_reset_cmd(s1)
        } else if kw == "set"@ {
            sp_players_set_cmd(s1)
        } else {
            Err(Error::UnknownKeyword)
        },
    }
}

pub open spec fn sp_players_add_cmd(s1: Seq<char>) -> Result<(PlayersView, Seq<char>), Error> {
    match sp_space(s1) {
        Err(e) => Err(e),
        Ok(s2) => match sp_players_add(s2) {
            Ok((v, s3)) => Ok((PlayersView::Add(v), s3)),
            Err(e) => Err(e),
        },
    }
}

pub open spec fn sp_players_enable_cmd(s1: Seq<char>) -> Result<(PlayersView, Seq<char>), Error> {
    match sp_space(s1) {
        Err(e) => Err(e),
        Ok(s2) => match sp_players_enable(s2) {
            Ok((v, s3)) => Ok((PlayersView::Enable(v), s3)),
            Err(e) => Err(e),
        },
    }
}

pub open spec fn sp_players_get_cmd(s1: Seq<char>) -> Result<(PlayersView, Seq<char>), Error> {
    match sp_space(s1) {
        Err(e) => Err(e),
        Ok(s2) => match sp_players_get(s2) {
            Ok((v, s3)) => Ok((PlayersView::Get(v), s3)),
            Err(e) => Err(e),
        },
    }
}

pub open spec fn sp_players_list_cmd(s1: Seq<char>) -> Result<(PlayersView, Seq<char>), Error> {
    match sp_players_list(s1) {
        Ok((v, s2)) => Ok((PlayersView::List(v), s2)),
        Err(e) => Err(e),
    }
}

pub open spec fn sp_players_operation_cmd(s1: Seq<char>) -> Result<
    (PlayersView, Seq<char>),
    Error,
> {
    match sp_space(s1) {
        Err(e) => Err(e),
        Ok(s2) => match sp_players_operation(s2) {
            Ok((v, s3)) => Ok((PlayersView::Operation(v), s3)),
            Err(e) => Err(e),
        },
    }
}

pub open spec fn sp_players_remove_cmd(s1: Seq<char>) -> Result<(PlayersView, Seq<char>), Error> {
    match sp_space(s1) {
        Err(e) => Err(e),
        Ok(s2) => match sp_players_remove(s2) {
            Ok((v, s3)) => Ok((PlayersView::Remove(v), s3)),
            Err(e) => Err(e),
        },
    }
}

pub open spec fn sp_players_reset_cmd(s1: Seq<char>) -> Result<(PlayersView, Seq<char>), Error> {
    match sp_space(s1) {
        Err(e) => Err(e),
        Ok(s2) => match sp_players_reset(s2) {
            Ok((v, s3)) => Ok((PlayersView::Reset(v), s3)),
            Err(e) => Err(e),
        },
    }
}

pub open spec fn sp_players_set_cmd(s1: Seq<char>) -> Result<(PlayersView, Seq<char>), Error> {
    match sp_space(s1) {
        Err(e) => Err(e),
        Ok(s2) => match sp_players_set(s2) {
            Ok((v, s3)) => Ok((PlayersView::SetScore(v), s3)),
            Err(e) => Err(e),
        },
    }
}

pub open spec fn sp_players_add(s: Seq<char>) -> Result<(PlayersAddView, Seq<char>), Error> {
    match sp_target(s) {
        Err(e) => Err(e),
        Ok((t, s1)) => match sp_space(s1) {
            Err(e) => Err(e),
            Ok(s2) => match sp_name(s2) {
                Err(e) => Err(e),
                Ok((objective, s3)) => match sp_space(s3) {
                    Err(e) => Err(e),
                    Ok(s4) => match sp_positive_integer(s4) {
                        Err(e) => Err(e),
                        Ok((score, s5)) => Ok(
                            (PlayersAddView { targets: t, objective, score }, s5),
                        ),
                    },
                },
            },
        },
    }
}

pub open spec fn sp_players_enable(s: Seq<char>) -> Result<(PlayersEnableView, Seq<char>), Error> {
    match sp_target(s) {
        Err(e) => Err(e),
        Ok((t, s1)) => match sp_space(s1) {
            Err(e) => Err(e),
            Ok(s2) => match sp_name(s2) {
                Err(e) => Err(e),
                Ok((objective, s3)) => Ok((PlayersEnableView { targets: t, objective }, s3)),
            },
        },
    }
}

pub open spec fn sp_players_get(s: Seq<char>) -> Result<(PlayersGetView, Seq<char>), Error> {
    match sp_target(s) {
        Err(e) => Err(e),
        Ok((t, s1)) => match sp_space(s1) {
            Err(e) => Err(e),
            Ok(s2) => match sp_name(s2) {
                Err(e) => Err(e),
                Ok((objective, s3)) => Ok((PlayersGetView { target: t, objective }, s3)),
            },
        },
    }
}

pub open spec fn sp_players_list(s: Seq<char>) -> Result<(PlayersListView, Seq<char>), Error> {
    if s.len() == 0 {
        Ok((PlayersListView { target: None }, s))
    } else {
        match sp_space(s) {
            Err(e) => Err(e),
            Ok(s1) => match sp_target(s1) {
                Err(e) => Err(e),
                Ok((t, s2)) => Ok((PlayersListView { target: Some(t) }, s2)),
            },
        }
    }
}

pub open spec fn sp_players_operation(s: Seq<char>) -> Result<
    (PlayersOperationView, Seq<char>),
    Error,
> {
    match sp_target(s) {
        Err(e) => Err(e),
        Ok((t, s1)) => match sp_space(s1) {
            Err(e) => Err(e),
            Ok(s2) => match sp_name(s2) {
                Err(e) => Err(e),
                Ok((target_objective, s3)) => match sp_space(s3) {
                    Err(e) => Err(e),
                    Ok(s4) => match sp_operation_type(s4) {
                        Err(e) => Err(e),
                        Ok((op, s5)) => match sp_space(s5) {
                            Err(e) => Err(e),
                            Ok(s6) => match sp_target(s6) {
                                Err(e) => Err(e),
                                Ok((src, s7)) => match sp_space(s7) {
                                    Err(e) => Err(e),
                                    Ok(s8) => match sp_name(s8) {
                                        Err(e) => Err(e),
                                        Ok((source_objective, s9)) => Ok(
                                            (
                                                PlayersOperationView {
                                                    targets: t,
                                                    target_objective,
                                                    operation: op,
                                                    source: src,
                                                    source_objective,
                                                },
                                                s9,
                                            ),
                                        ),
                                    },
                                },
                            },
                        },
                    },
                },
            },
        },
    }
}

pub open spec fn sp_operation_type(s: Seq<char>) -> Result<(OperationType, Seq<char>), Error> {
    let (op, s1) = sp_operator(s);
    if op == "+="@ {
        Ok((OperationType::Addition, s1))
    } else if op == "-="@ {
        Ok((OperationType::Subtraction, s1))
    } else if op == "*="@ {
        Ok((OperationType::Multiplication, s1))
    } else if op == "/="@ {
        Ok((OperationType::Division, s1))
    } else if op == "%="@ {
        Ok((OperationType::Modulus, s1))
    } else if op == "="@ {
        Ok((OperationType::Assign, s1))
    } else if op == "<"@ {
        Ok((OperationType::Min, s1))
    } else if op == ">"@ {
        Ok((OperationType::Max, s1))
    } else if op == "><"@ {
        Ok((OperationType::Swap, s1))
    } else {
        Err(Error::UnknownKeyword)
    }
}

pub open spec fn sp_players_remove(s: Seq<char>) -> Result<(PlayersRemoveView, Seq<char>), Error> {
    match sp_target(s) {
        Err(e) => Err(e),
        Ok((t, s1)) => match sp_space(s1) {
            Err(e) => Err(e),
            Ok(s2) => match sp_name(s2) {
                Err(e) => Err(e),
                Ok((objective, s3)) => match sp_space(s3) {
                    Err(e) => Err(e),
                    Ok(s4) => match sp_positive_integer(s4) {
                        Err(e) => Err(e),
                        Ok((score, s5)) => Ok(
                            (PlayersRemoveView { targets: t, objective, score }, s5),
                        ),
                    },
                },
            },
        },
    }
}

pub open spec fn sp_players_reset(s: Seq<char>) -> Result<(PlayersResetView, Seq<char>), Error> {
    match sp_target(s) {
        Err(e) => Err(e),
        Ok((t, s1)) => match sp_space(s1) {
            Err(e) => Err(e),
            Ok(s2) => match sp_name(s2) {
                Err(e) => Err(e),
                Ok((objective, s3)) => Ok((PlayersResetView { targets: t, objective }, s3)),
            },
        },
    }
}

pub open spec fn sp_players_set(s: Seq<char>) -> Result<(PlayersSetView, Seq<char>), Error> {
    match sp_target(s) {
        Err(e) => Err(e),
        Ok((t, s1)) => match sp_space(s1) {
            Err(e) => Err(e),
            Ok(s2) => match sp_name(s2) {
                Err(e) => Err(e),
                Ok((objective, s3)) => match sp_space(s3) {
                    Err(e) => Err(e),
                    Ok(s4) => match sp_signed_integer(s4) {
                        Err(e) => Err(e),
                        Ok((score, s5)) => Ok(
                            (PlayersSetView { targets: t, objective, score }, s5),
                        ),
                    },
                },
            },
        },
    }
}

pub open spec fn sp_function_identifier(s: Seq<char>) -> Result<
    (FunctionIdentifierView, Seq<char>),
    Error,
> {
    match sp_name(s) {
        Err(e) => Err(e),
        Ok((first, s1)) => if s1.len() == 0 {
            Ok((FunctionIdentifierView { namespace: None, name: first }, s1))
        } else {
            match sp_expect(s1, ':') {
                Err(e) => Err(e),
                Ok(s2) => match sp_name(s2) {
                    Err(e) => Err(e),
                    Ok((name, s3)) => Ok(
                        (FunctionIdentifierView { namespace: Some(first), name }, s3),
                    ),
                },
            }
        },
    }
}

pub open spec fn sp_target(s: Seq<char>) -> Result<(TargetView, Seq<char>), Error> {
    if s.len() > 0 && s[0] == '@' {
        match sp_expect(s, '@') {
            Err(e) => Err(e),
            Ok(s1) => match sp_name(s1) {
                Err(e) => Err(e),
                Ok((word, s2)) => if word == "p"@ {
                    Ok((TargetView::Selector(Selector { variable: SelectorVariable::P }), s2))
                } else if word == "r"@ {
                    Ok((TargetView::Selector(Selector { variable: SelectorVariable::R }), s2))
                } else if word == "a"@ {
                    Ok((TargetView::Selector(Selector { variable: SelectorVariable::A }), s2))
                } else if word == "e"@ {
                    Ok((TargetView::Selector(Selector { variable: SelectorVariable::E }), s2))
                } else if word == "s"@ {
                    Ok((TargetView::Selector(Selector { variable: SelectorVariable::S }), s2))
                } else {
                    Err(Error::UnknownKeyword)
                },
            },
        }
    } else {
        match sp_name(s) {
            Err(e) => Err(e),
            Ok((name, s1)) => Ok((TargetView::Name(name), s1)),
        }
    }
}

pub open spec fn sp_execute(s: Seq<char>) -> Result<(ExecuteView, Seq<char>), Error>
    decreases s.len(),
    via sp_execute_dec
{
    match sp_name(s) {
        Err(e) => Err(e),
        Ok((kw, s1)) => if kw == "if"@ {
            match sp_space(s1) {
                Err(e) => Err(e),
                Ok(s2) => match sp_execute_if(s2) {
                    Ok((v, s3)) => Ok((ExecuteView::If(v), s3)),
                    Err(e) => Err(e),
                },
            }
        } else {
            Err(Error::UnknownKeyword)
        },
    }
}

#[via_fn]
proof fn sp_execute_dec(s: Seq<char>) {
    lemma_sp_take_parts(s, ident_pred());
}

pub open spec fn sp_execute_if(s: Seq<char>) -> Result<(IfView, Seq<char>), Error>
    decreases s.len(),
    via sp_execute_if_dec
{
    match sp_name(s) {
        Err(e) => Err(e),
        Ok((kw, s1)) => if kw == "score"@ {
            match sp_space(s1) {
                Err(e) => Err(e),
                Ok(s2) => match sp_score(s2) {
                    Ok((v, s3)) => Ok((IfView::Score(v), s3)),
                    Err(e) => Err(e),
                },
            }
        } else {
            Err(Error::UnknownKeyword)
        },
    }
}

#[via_fn]
proof fn sp_execute_if_dec(s: Seq<char>) {
    lemma_sp_take_parts(s, ident_pred());
}

pub open spec fn sp_score(s: Seq<char>) -> Result<(ScoreView, Seq<char>), Error>
    decreases s.len(),
    via sp_score_dec
{
    match sp_target(s) {
        Err(e) => Err(e),
        Ok((t, s1)) => match sp_space(s1) {
            Err(e) => Err(e),
            Ok(s2) => match sp_name(s2) {
                Err(e) => Err(e),
                Ok((target_objective, s3)) => match sp_space(s3) {
                    Err(e) => Err(e),
                    Ok(s4) => sp_comparison(s4, t, target_objective),
                },
            },
        },
    }
}

#[via_fn]
proof fn sp_score_dec(s: Seq<char>) {
    lemma_sp_target_suffix(s);
    match sp_target(s) {
        Ok((t, s1)) => {
            if s1.len() > 0 && s1[0] == ' ' {
                lemma_sp_take_parts(s1.drop_first(), ident_pred());
            }
        },
        Err(_) => {},
    }
}

pub open spec fn sp_comparison(s: Seq<char>, t: TargetView, target_objective: Seq<char>) -> Result<
    (ScoreView, Seq<char>),
    Error,
>
    decreases s.len(),
    via sp_comparison_dec
{
    let (op, s1) = sp_operator(s);
    if op == "<"@ {
        match sp_space(s1) {
            Err(e) => Err(e),
            Ok(s2) => match sp_source_comparison(s2, t, target_objective) {
                Ok((sc, s3)) => Ok((ScoreView::Less(sc), s3)),
                Err(e) => Err(e),
            },
        }
    } else if op == "<="@ {
        match sp_space(s1) {
            Err(e) => Err(e),
            Ok(s2) => match sp_source_comparison(s2, t, target_objective) {
                Ok((sc, s3)) => Ok((ScoreView::LessEqual(sc), s3)),
                Err(e) => Err(e),
            },
        }
    } else if op == ">"@ {
        match sp_space(s1) {
            Err(e) => Err(e),
            Ok(s2) => match sp_source_comparison(s2, t, target_objective) {
                Ok((sc, s3)) => Ok((ScoreView::Greater(sc), s3)),
                Err(e) => Err(e),
            },
        }
    } else if op == ">="@ {
        match sp_space(s1) {
            Err(e) => Err(e),
            Ok(s2) => match sp_source_comparison(s2, t, target_objective) {
                Ok((sc, s3)) => Ok((ScoreView::GreaterEqual(sc), s3)),
                Err(e) => Err(e),
            },
        }
    } else if op == "="@ {
        match sp_space(s1) {
            Err(e) => Err(e),
            Ok(s2) => match sp_source_comparison(s2, t, target_objective) {
                Ok((sc, s3)) => Ok((ScoreView::Equal(sc), s3)),
                Err(e) => Err(e),
            },
        }
    } else if op == "matches"@ {
        match sp_space(s1) {
            Err(e) => Err(e),
            Ok(s2) => match sp_range_comparison(s2, t, target_objective) {
                Ok((rc, s3)) => Ok((ScoreView::Matches(rc), s3)),
                Err(e) => Err(e),
            },
        }
    } else {
        Err(Error::UnknownKeyword)
    }
}

#[via_fn]
proof fn sp_comparison_dec(s: Seq<char>, t: TargetView, target_objective: Seq<char>) {
    lemma_sp_take_parts(s, not_char_pred(' '));
}

pub open spec fn sp_source_comparison(
    s: Seq<char>,
    t: TargetView,
    target_objective: Seq<char>,
) -> Result<(SourceComparisonView, Seq<char>), Error>
    decreases s.len(),
    via sp_source_comparison_dec
{
    match sp_target(s) {
        Err(e) => Err(e),
        Ok((src, s1)) => match sp_space(s1) {
            Err(e) => Err(e),
            Ok(s2) => match sp_name(s2) {
                Err(e) => Err(e),
                Ok((source_objective, s3)) => match sp_space(s3) {
                    Err(e) => Err(e),
                    Ok(s4) => match sp_name(s4) {
                        Err(e) => Err(e),
                        Ok((run_word, s5)) => match sp_space(s5) {
                            Err(e) => Err(e),
                            Ok(s6) => match sp_command(s6) {
                                Err(e) => Err(e),
                                Ok((cmd, s7)) => Ok(
                                    (
                                        SourceComparisonView {
                                            target: t,
                                            target_objective,
                                            source: src,
                                            source_objective,
                                            command: Box::new(cmd),
                                        },
                                        s7,
                                    ),
                                ),
                            },
                        },
                    },
                },
            },
        },
    }
}

#[via_fn]
proof fn sp_source_comparison_dec(s: Seq<char>, t: TargetView, target_objective: Seq<char>) {
    lemma_sp_target_suffix(s);
    match sp_target(s) {
        Ok((src, s1)) => {
            if s1.len() > 0 && s1[0] == ' ' {
                let s2 = s1.drop_first();
                lemma_sp_take_parts(s2, ident_pred());
                let s3 = sp_identifier(s2).1;
                if s3.len() > 0 && s3[0] == ' ' {
                    let s4 = s3.drop_first();
                    lemma_sp_take_parts(s4, ident_pred());
                }
            }
        },
        Err(_) => {},
    }
}

pub open spec fn sp_range_comparison(
    s: Seq<char>,
    t: TargetView,
    target_objective: Seq<char>,
) -> Result<(RangeComparisonView, Seq<char>), Error>
    decreases s.len(),
    via sp_range_comparison_dec
{
    match sp_interval(s) {
        Err(e) => Err(e),
        Ok((iv, s1)) => match sp_space(s1) {
            Err(e) => Err(e),
            Ok(s2) => match sp_name(s2) {
                Err(e) => Err(e),
                Ok((run_word, s3)) => match sp_space(s3) {
                    Err(e) => Err(e),
                    Ok(s4) => match sp_command(s4) {
                        Err(e) => Err(e),
                        Ok((cmd, s5)) => Ok(
                            (
                                RangeComparisonView {
                                    target: t,
                                    target_objective,
                                    interval: iv,
                                    command: Box::new(cmd),
                                },
                                s5,
                            ),
                        ),
                    },
                },
            },
        },
    }
}

#[via_fn]
proof fn sp_range_comparison_dec(s: Seq<char>, t: TargetView, target_objective: Seq<char>) {
    lemma_sp_interval_suffix(s);
    match sp_interval(s) {
        Ok((iv, s1)) => {
            if s1.len() > 0 && s1[0] == ' ' {
                lemma_sp_take_parts(s1.drop_first(), ident_pred());
            }
        },
        Err(_) => {},
    }
}

pub open spec fn sp_interval(s: Seq<char>) -> Result<(Interval, Seq<char>), Error> {
    if s.len() > 0 && s[0] == '.' {
        match sp_expect(s, '.') {
            Err(e) => Err(e),
            Ok(s1) => match sp_expect(s1, '.') {
                Err(e) => Err(e),
                Ok(s2) => match sp_signed_integer(s2) {
                    Err(e) => Err(e),
                    Ok((b, s3)) => Ok((Interval::LeftUnbounded(b), s3)),
                },
            },
        }
    } else {
        match sp_signed_integer(s) {
            Err(e) => Err(e),
            Ok((a, s1)) => if s1.len() > 0 && s1[0] == '.' {
                match sp_expect(s1, '.') {
                    Err(e) => Err(e),
                    Ok(s2) => match sp_expect(s2, '.') {
                        Err(e) => Err(e),
                        Ok(s3) => if s3.len() > 0 && (is_ascii_digit(s3[0]) || s3[0] == '-') {
                            match sp_signed_integer(s3) {
                                Err(e) => Err(e),
                                Ok((b, s4)) => Ok((Interval::Bounded(a, b), s4)),
                            }
                        } else {
                            Ok((Interval::RightUnbounded(a), s3))
                        },
                    },
                }
            } else {
                Ok((Interval::Value(a), s1))
            },
        }
    }
}

/// The meaning of [`parse_line`]: the command denoted by a whole line. A
/// line that continues after a complete command is an error carrying the
/// first unread character.
pub open spec fn spec_parse_line(s: Seq<char>) -> Result<CommandView, Error> {
    match sp_command(s) {
        Ok((c, rest)) => if rest.len() == 0 {
            Ok(c)
        } else {
            Err(Error::Trailing(rest[0]))
        },
        Err(e) => Err(e),
    }
}

/// A successful parse leaves a suffix no longer than its input.
pub proof fn lemma_sp_target_suffix(s: Seq<char>)
    ensures
        sp_target(s) matches Ok((t, rest)) ==> rest.len() <= s.len(),
{
    if s.len() > 0 && s[0] == '@' {
        lemma_sp_take_parts(s.drop_first(), ident_pred());
    } else {
        lemma_sp_take_parts(s, ident_pred());
    }
}

/// A successful interval parse leaves a suffix no longer than its input.
pub proof fn lemma_sp_interval_suffix(s: Seq<char>)
    ensures
        sp_interval(s) matches Ok((iv, rest)) ==> rest.len() <= s.len(),
{
    if s.len() > 0 && s[0] == '.' {
        let s2 = s.drop_first().drop_first();
        if s.drop_first().len() > 0 {
            lemma_sp_take_parts(s.drop_first().drop_first(), digits_pred(true));
        }
    } else {
        lemma_sp_take_parts(s, digits_pred(true));
        let s1 = sp_digit_run(s, true).1;
        if s1.len() > 0 && s1[0] == '.' {
            let s2 = s1.drop_first();
            if s2.len() > 0 {
                lemma_sp_take_parts(s2.drop_first(), digits_pred(true));
            }
        }
    }
}


// ---------------------------------------------------------------------------
// Grammar productions, executable side.
// ---------------------------------------------------------------------------

/// Parses one line of command text. The whole line must be one command:
/// text standing after a complete command is an error.
pub fn parse_line(line: &str) -> (r: Result<Command, Error>)
    ensures
        match r {
            Ok(c) => spec_parse_line(line@) == Ok::<CommandView, Error>(c@),
            Err(e) => spec_parse_line(line@) == Err::<CommandView, Error>(e),
        },
{
    let mut input = Input::new(line);
    match command(&mut input) {
        Err(e) => Err(e),
        Ok(c) => match input.peek() {
            None => Ok(c),
            Some(stray) => Err(Error::Trailing(stray)),
        },
    }
}

fn command(input: &mut Input) -> (r: Result<Command, Error>)
    requires
        old(input).wf(),
    ensures
        final(input).wf(),
        match r {
            Ok(c) => sp_command(old(input).remaining()) == Ok::<(CommandView, Seq<char>), Error>(
                (c@, final(input).remaining()),
            ),
            Err(e) => sp_command(old(input).remaining()) == Err::<(CommandView, Seq<char>), Error>(
                e,
            ),
        },
    decreases old(input).remaining().len(),
{
    let ghost entry = old(input).remaining();
    let kw = match identifier(input) {
        Ok(token) => token,
        Err(e) => {
            return Err(e);
        },
    };
    if text_is(&kw, "scoreboard") {
        match space(input) {
            Err(e) => Err(e),
            Ok(()) => match scoreboard(input) {
                Ok(v) => Ok(Command::Scoreboard(v)),
                Err(e) => Err(e),
            },
        }
    } else if text_is(&kw, "function") {
        match space(input) {
            Err(e) => Err(e),
            Ok(()) => match function_identifier(input) {
                Ok(v) => Ok(Command::Function(v)),
                Err(e) => Err(e),
            },
        }
    } else if text_is(&kw, "execute") {
        match space(input) {
            Err(e) => Err(e),
            Ok(()) => {
                proof {
                    lemma_sp_take_parts(entry, ident_pred());
                }
                match execute(input) {
                    Ok(v) => Ok(Command::Execute(v)),
                    Err(e) => Err(e),
                }
            },
        }
    } else {
        Err(Error::UnknownKeyword)
    }
}

fn scoreboard(input: &mut Input) -> (r: Result<Scoreboard, Error>)
    requires
        old(input).wf(),
    ensures
        final(input).wf(),
        match r {
            Ok(v) => sp_scoreboard(old(input).remaining()) == Ok::<
                (ScoreboardView, Seq<char>),
                Error,
            >((v@, final(input).remaining())),
            Err(e) => sp_scoreboard(old(input).remaining()) == Err::<
                (ScoreboardView, Seq<char>),
                Error,
            >(e),
        },
{
    let kw = match identifier(input) {
        Ok(token) => token,
        Err(e) => {
            return Err(e);
        },
    };
    if text_is(&kw, "objectives") {
        match space(input) {
            Err(e) => Err(e),
            Ok(()) => match objectives(input) {
                Ok(v) => Ok(Scoreboard::Objectives(v)),
                Err(e) => Err(e),
            },
        }
    } else if text_is(&kw, "players") {
        match space(input) {
            Err(e) => Err(e),
            Ok(()) => match players(input) {
                Ok(v) => Ok(Scoreboard::Players(v)),
                Err(e) => Err(e),
            },
        }
    } else {
        Err(Error::UnknownKeyword)
    }
}

fn objectives(input: &mut Input) -> (r: Result<Objectives, Error>)
    requires
        old(input).wf(),
    ensures
        final(input).wf(),
        match r {
            Ok(v) => sp_objectives(old(input).remaining()) == Ok::<
                (ObjectivesView, Seq<char>),
                Error,
            >((v@, final(input).remaining())),
            Err(e) => sp_objectives(old(input).remaining()) == Err::<
                (ObjectivesView, Seq<char>),
                Error,
            >(e),
        },
{
    let kw = match identifier(input) {
        Ok(token) => token,
        Err(e) => {
            return Err(e);
        },
    };
    if text_is(&kw, "add") {
        match space(input) {
            Err(e) => Err(e),
            Ok(()) => match objectives_add(input) {
                Ok(v) => Ok(Objectives::Add(v)),
                Err(e) => Err(e),
            },
        }
    } else if text_is(&kw, "list") {
        Ok(Objectives::List)
    } else if text_is(&kw, "modify") {
        match space(input) {
            Err(e) => Err(e),
            Ok(()) => match objectives_modify(input) {
                Ok(v) => Ok(Objectives::Modify(v)),
                Err(e) => Err(e),
            },
        }
    } else if text_is(&kw, "remove") {
        match space(input) {
            Err(e) => Err(e),
            Ok(()) => match objectives_remove(input) {
                Ok(v) => Ok(Objectives::Remove(v)),
                Err(e) => Err(e),
            },
        }
    } else if text_is(&kw, "setdisplay") {
        match space(input) {
            Err(e) => Err(e),
            Ok(()) => match objectives_set_display(input) {
                Ok(v) => Ok(Objectives::SetDisplay(v)),
                Err(e) => Err(e),
            },
        }
    } else {
        Err(Error::UnknownKeyword)
    }
}

fn objectives_add(input: &mut Input) -> (r: Result<ObjectivesAdd, Error>)
    requires
        old(input).wf(),
    ensures
        final(input).wf(),
        match r {
            Ok(v) => sp_objectives_add(old(input).remaining()) == Ok::<
                (ObjectivesAddView, Seq<char>),
                Error,
            >((v@, final(input).remaining())),
            Err(e) => sp_objectives_add(old(input).remaining()) == Err::<
                (ObjectivesAddView, Seq<char>),
                Error,
            >(e),
        },
{
    let objective = match identifier(input) {
        Ok(token) => token,
        Err(e) => {
            return Err(e);
        },
    };
    match space(input) {
        Err(e) => Err(e),
        Ok(()) => match criteria(input) {
            Err(e) => Err(e),
            Ok(cr) => {
                let next = input.peek();
                match next {
                    None => Ok(ObjectivesAdd { objective, criteria: cr, display_name: None }),
                    Some(_) => match space(input) {
                        Err(e) => Err(e),
                        Ok(()) => match string(input) {
                            Err(e) => Err(e),
                            Ok(content) => Ok(
                                ObjectivesAdd {
                                    objective,
                                    criteria: cr,
                                    display_name: Some(content),
                                },
                            ),
                        },
                    },
                }
            },
        },
    }
}

fn criteria(input: &mut Input) -> (r: Result<Criteria, Error>)
    requires
        old(input).wf(),
    ensures
        final(input).wf(),
        match r {
            Ok(v) => sp_criteria(old(input).remaining()) == Ok::<(Criteria, Seq<char>), Error>(
                (v, final(input).remaining()),
            ),
            Err(e) => sp_criteria(old(input).remaining()) == Err::<(Criteria, Seq<char>), Error>(
                e,
            ),
        },
{
    let kw = match identifier(input) {
        Ok(token) => token,
        Err(e) => {
            return Err(e);
        },
    };
    if text_is(&kw, "dummy") {
        Ok(Criteria::Dummy)
    } else {
        Err(Error::UnknownKeyword)
    }
}

fn objectives_modify(input: &mut Input) -> (r: Result<ObjectivesModify, Error>)
    requires
        old(input).wf(),
    ensures
        final(input).wf(),
        match r {
            Ok(v) => sp_objectives_modify(old(input).remaining()) == Ok::<
                (ObjectivesModifyView, Seq<char>),
                Error,
            >((v@, final(input).remaining())),
            Err(e) => sp_objectives_modify(old(input).remaining()) == Err::<
                (ObjectivesModifyView, Seq<char>),
                Error,
            >(e),
        },
{
    let objective = match identifier(input) {
        Ok(token) => token,
        Err(e) => {
            return Err(e);
        },
    };
    match space(input) {
        Err(e) => Err(e),
        Ok(()) => match modification(input) {
            Err(e) => Err(e),
            Ok(m) => Ok(ObjectivesModify { objective, modification: m }),
        },
    }
}

fn modification(input: &mut Input) -> (r: Result<Modification, Error>)
    requires
        old(input).wf(),
    ensures
        final(input).wf(),
        match r {
            Ok(v) => sp_modification(old(input).remaining()) == Ok::<
                (ModificationView, Seq<char>),
                Error,
            >((v@, final(input).remaining())),
            Err(e) => sp_modification(old(input).remaining()) == Err::<
                (ModificationView, Seq<char>),
                Error,
            >(e),
        },
{
    let kw = match identifier(input) {
        Ok(token) => token,
        Err(e) => {
            return Err(e);
        },
    };
    if text_is(&kw, "displayname") {
        match space(input) {
            Err(e) => Err(e),
            Ok(()) => match string(input) {
                Err(e) => Err(e),
                Ok(content) => Ok(Modification::DisplayName(content)),
            },
        }
    } else if text_is(&kw, "rendertype") {
        match space(input) {
            Err(e) => Err(e),
            Ok(()) => match rendertype(input) {
                Err(e) => Err(e),
                Ok(rt) => Ok(Modification::RenderType(rt)),
            },
        }
    } else {
        Err(Error::UnknownKeyword)
    }
}

fn rendertype(input: &mut Input) -> (r: Result<RenderType, Error>)
    requires
        old(input).wf(),
    ensures
        final(input).wf(),
        match r {
            Ok(v) => sp_rendertype(old(input).remaining()) == Ok::<(RenderType, Seq<char>), Error>(
                (v, final(input).remaining()),
            ),
            Err(e) => sp_rendertype(old(input).remaining()) == Err::<
                (RenderType, Seq<char>),
                Error,
            >(e),
        },
{
    let kw = match identifier(input) {
        Ok(token) => token,
        Err(e) => {
            return Err(e);
        },
    };
    if text_is(&kw, "hearts") {
        Ok(RenderType::Hearts)
    } else if text_is(&kw, "integer") {
        Ok(RenderType::Integer)
    } else {
        Err(Error::UnknownKeyword)
    }
}

fn objectives_remove(input: &mut Input) -> (r: Result<ObjectivesRemove, Error>)
    requires
        old(input).wf(),
    ensures
        final(input).wf(),
        match r {
            Ok(v) => sp_objectives_remove(old(input).remaining()) == Ok::<
                (ObjectivesRemoveView, Seq<char>),
                Error,
            >((v@, final(input).remaining())),
            Err(e) => sp_objectives_remove(old(input).remaining()) == Err::<
                (ObjectivesRemoveView, Seq<char>),
                Error,
            >(e),
        },
{
    let objective = match identifier(input) {
        Ok(token) => token,
        Err(e) => {
            return Err(e);
        },
    };
    Ok(ObjectivesRemove { objective })
}

fn objectives_set_display(input: &mut Input) -> (r: Result<ObjectivesSetDisplay, Error>)
    requires
        old(input).wf(),
    ensures
        final(input).wf(),
        match r {
            Ok(v) => sp_objectives_set_display(old(input).remaining()) == Ok::<
                (ObjectivesSetDisplayView, Seq<char>),
                Error,
            >((v@, final(input).remaining())),
            Err(e) => sp_objectives_set_display(old(input).remaining()) == Err::<
                (ObjectivesSetDisplayView, Seq<char>),
                Error,
            >(e),
        },
{
    match display_slot(input) {
        Err(e) => Err(e),
        Ok(slot) => match space(input) {
            Err(e) => Err(e),
            Ok(()) => {
                let objective = match identifier(input) {
                    Ok(token) => token,
                    Err(e) => {
                        return Err(e);
                    },
                };
                Ok(ObjectivesSetDisplay { slot, objective })
            },
        },
    }
}

fn display_slot(input: &mut Input) -> (r: Result<DisplaySlot, Error>)
    requires
        old(input).wf(),
    ensures
        final(input).wf(),
        match r {
            Ok(v) => sp_display_slot(old(input).remaining()) == Ok::<
                (DisplaySlot, Seq<char>),
                Error,
            >((v, final(input).remaining())),
            Err(e) => sp_display_slot(old(input).remaining()) == Err::<
                (DisplaySlot, Seq<char>),
                Error,
            >(e),
        },
{
    let kw = match identifier(input) {
        Ok(token) => token,
        Err(e) => {
            return Err(e);
        },
    };
    if text_is(&kw, "belowName") {
        Ok(DisplaySlot::BelowName)
    } else if text_is(&kw, "list") {
        Ok(DisplaySlot::List)
    } else if text_is(&kw, "sidebar") {
        Ok(DisplaySlot::Sidebar)
    } else {
        Err(Error::UnknownKeyword)
    }
}

fn players_kw_add(input: &mut Input) -> (r: Result<Players, Error>)
    requires
        old(input).wf(),
    ensures
        final(input).wf(),
        match r {
            Ok(v) => sp_players_add_cmd(old(input).remaining()) == Ok::<
                (PlayersView, Seq<char>),
                Error,
            >((v@, final(input).remaining())),
            Err(e) => sp_players_add_cmd(old(input).remaining()) == Err::<
                (PlayersView, Seq<char>),
                Error,
            >(e),
        },
{
    match space(input) {
        Err(e) => Err(e),
        Ok(()) => match players_add(input) {
            Ok(v) => Ok(Players::Add(v)),
            Err(e) => Err(e),
        },
    }
}

fn players_kw_enable(input: &mut Input) -> (r: Result<Players, Error>)
    requires
        old(input).wf(),
    ensures
        final(input).wf(),
        match r {
            Ok(v) => sp_players_enable_cmd(old(input).remaining()) == Ok::<
                (PlayersView, Seq<char>),
                Error,
            >((v@, final(input).remaining())),
            Err(e) => sp_players_enable_cmd(old(input).remaining()) == Err::<
                (PlayersView, Seq<char>),
                Error,
            >(e),
        },
{
    match space(input) {
        Err(e) => Err(e),
        Ok(()) => match players_enable(input) {
            Ok(v) => Ok(Players::Enable(v)),
            Err(e) => Err(e),
        },
    }
}

fn players_kw_get(input: &mut Input) -> (r: Result<Players, Error>)
    requires
        old(input).wf(),
    ensures
        final(input).wf(),
        match r {
            Ok(v) => sp_players_get_cmd(old(input).remaining()) == Ok::<
                (PlayersView, Seq<char>),
                Error,
            >((v@, final(input).remaining())),
            Err(e) => sp_players_get_cmd(old(input).remaining()) == Err::<
                (PlayersView, Seq<char>),
                Error,
            >(e),
        },
{
    match space(input) {
        Err(e) => Err(e),
        Ok(()) => match players_get(input) {
            Ok(v) => Ok(Players::Get(v)),
            Err(e) => Err(e),
        },
    }
}

fn players_kw_operation(input: &mut Input) -> (r: Result<Players, Error>)
    requires
        old(input).wf(),
    ensures
        final(input).wf(),
        match r {
            Ok(v) => sp_players_operation_cmd(old(input).remaining()) == Ok::<
                (PlayersView, Seq<char>),
                Error,
            >((v@, final(input).remaining())),
            Err(e) => sp_players_operation_cmd(old(input).remaining()) == Err::<
                (PlayersView, Seq<char>),
                Error,
            >(e),
        },
{
    match space(input) {
        Err(e) => Err(e),
        Ok(()) => match players_operation(input) {
            Ok(v) => Ok(Players::Operation(v)),
            Err(e) => Err(e),
        },
    }
}

fn players_kw_remove(input: &mut Input) -> (r: Result<Players, Error>)
    requires
        old(input).wf(),
    ensures
        final(input).wf(),
        match r {
            Ok(v) => sp_players_remove_cmd(old(input).remaining()) == Ok::<
                (PlayersView, Seq<char>),
                Error,
            >((v@, final(input).remaining())),
            Err(e) => sp_players_remove_cmd(old(input).remaining()) == Err::<
                (PlayersView, Seq<char>),
                Error,
            >(e),
        },
{
    match space(input) {
        Err(e) => Err(e),
        Ok(()) => match players_remove(input) {
            Ok(v) => Ok(Players::Remove(v)),
            Err(e) => Err(e),
        },
    }
}

fn players_kw_reset(input: &mut Input) -> (r: Result<Players, Error>)
    requires
        old(input).wf(),
    ensures
        final(input).wf(),
        match r {
            Ok(v) => sp_players_reset_cmd(old(input).remaining()) == Ok::<
                (PlayersView, Seq<char>),
                Error,
            >((v@, final(input).remaining())),
            Err(e) => sp_players_reset_cmd(old(input).remaining()) == Err::<
                (PlayersView, Seq<char>),
                Error,
            >(e),
        },
{
    match space(input) {
        Err(e) => Err(e),
        Ok(()) => match players_reset(input) {
            Ok(v) => Ok(Players::Reset(v)),
            Err(e) => Err(e),
        },
    }
}

fn players_kw_set(input: &mut Input) -> (r: Result<Players, Error>)
    requires
        old(input).wf(),
    ensures
        final(input).wf(),
        match r {
            Ok(v) => sp_players_set_cmd(old(input).remaining()) == Ok::<
                (PlayersView, Seq<char>),
                Error,
            >((v@, final(input).remaining())),
            Err(e) => sp_players_set_cmd(old(input).remaining()) == Err::<
                (PlayersView, Seq<char>),
                Error,
            >(e),
        },
{
    match space(input) {
        Err(e) => Err(e),
        Ok(()) => match players_set(input) {
            Ok(v) => Ok(Players::SetScore(v)),
            Err(e) => Err(e),
        },
    }
}

fn players_kw_list(input: &mut Input) -> (r: Result<Players, Error>)
    requires
        old(input).wf(),
    ensures
        final(input).wf(),
        match r {
            Ok(v) => sp_players_list_cmd(old(input).remaining()) == Ok::<
                (PlayersView, Seq<char>),
                Error,
            >((v@, final(input).remaining())),
            Err(e) => sp_players_list_cmd(old(input).remaining()) == Err::<
                (PlayersView, Seq<char>),
                Error,
            >(e),
        },
{
    match players_list(input) {
        Ok(v) => Ok(Players::List(v)),
        Err(e) => Err(e),
    }
}

fn players(input: &mut Input) -> (r: Result<Players, Error>)
    requires
        old(input).wf(),
    ensures
        final(input).wf(),
        match r {
            Ok(v) => sp_players(old(input).remaining()) == Ok::<(PlayersView, Seq<char>), Error>(
                (v@, final(input).remaining()),
            ),
            Err(e) => sp_players(old(input).remaining()) == Err::<(PlayersView, Seq<char>), Error>(
                e,
            ),
        },
{
    let kw = match identifier(input) {
        Ok(token) => token,
        Err(e) => {
            return Err(e);
        },
    };
    if text_is(&kw, "add") {
        players_kw_add(input)
    } else if text_is(&kw, "enable") {
        players_kw_enable(input)
    } else if text_is(&kw, "get") {
        players_kw_get(input)
    } else if text_is(&kw, "list") {
        players_kw_list(input)
    } else if text_is(&kw, "operation") {
        players_kw_operation(input)
    } else if text_is(&kw, "remove") {
        players_kw_remove(input)
    } else if text_is(&kw, "reset") {
        players_kw_reset(input)
    } else if text_is(&kw, "set") {
        players_kw_set(input)
    } else {
        Err(Error::UnknownKeyword)
    }
}

fn players_add(input: &mut Input) -> (r: Result<PlayersAdd, Error>)
    requires
        old(input).wf(),
    ensures
        final(input).wf(),
        match r {
            Ok(v) => sp_players_add(old(input).remaining()) == Ok::<
                (PlayersAddView, Seq<char>),
                Error,
            >((v@, final(input).remaining())),
            Err(e) => sp_players_add(old(input).remaining()) == Err::<
                (PlayersAddView, Seq<char>),
                Error,
            >(e),
        },
{
    match target(input) {
        Err(e) => Err(e),
        Ok(t) => match space(input) {
            Err(e) => Err(e),
            Ok(()) => {
                let objective = match identifier(input) {
                    Ok(token) => token,
                    Err(e) => {
                        return Err(e);
                    },
                };
                match space(input) {
                    Err(e) => Err(e),
                    Ok(()) => match positive_integer(input) {
                        Err(e) => Err(e),
                        Ok(score) => Ok(PlayersAdd { targets: t, objective, score }),
                    },
                }
            },
        },
    }
}

fn players_enable(input: &mut Input) -> (r: Result<PlayersEnable, Error>)
    requires
        old(input).wf(),
    ensures
        final(input).wf(),
        match r {
            Ok(v) => sp_players_enable(old(input).remaining()) == Ok::<
                (PlayersEnableView, Seq<char>),
                Error,
            >((v@, final(input).remaining())),
            Err(e) => sp_players_enable(old(input).remaining()) == Err::<
                (PlayersEnableView, Seq<char>),
                Error,
            >(e),
        },
{
    match target(input) {
        Err(e) => Err(e),
        Ok(t) => match space(input) {
            Err(e) => Err(e),
            Ok(()) => {
                let objective = match identifier(input) {
                    Ok(token) => token,
                    Err(e) => {
                        return Err(e);
                    },
                };
                Ok(PlayersEnable { targets: t, objective })
            },
        },
    }
}

fn players_get(input: &mut Input) -> (r: Result<PlayersGet, Error>)
    requires
        old(input).wf(),
    ensures
        final(input).wf(),
        match r {
            Ok(v) => sp_players_get(old(input).remaining()) == Ok::<
                (PlayersGetView, Seq<char>),
                Error,
            >((v@, final(input).remaining())),
            Err(e) => sp_players_get(old(input).remaining()) == Err::<
                (PlayersGetView, Seq<char>),
                Error,
            >(e),
        },
{
    match target(input) {
        Err(e) => Err(e),
        Ok(t) => match space(input) {
            Err(e) => Err(e),
            Ok(()) => {
                let objective = match identifier(input) {
                    Ok(token) => token,
                    Err(e) => {
                        return Err(e);
                    },
                };
                Ok(PlayersGet { target: t, objective })
            },
        },
    }
}

fn players_list(input: &mut Input) -> (r: Result<PlayersList, Error>)
    requires
        old(input).wf(),
    ensures
        final(input).wf(),
        match r {
            Ok(v) => sp_players_list(old(input).remaining()) == Ok::<
                (PlayersListView, Seq<char>),
                Error,
            >((v@, final(input).remaining())),
            Err(e) => sp_players_list(old(input).remaining()) == Err::<
                (PlayersListView, Seq<char>),
                Error,
            >(e),
        },
{
    let next = input.peek();
    match next {
        None => Ok(PlayersList { target: None }),
        Some(_) => match space(input) {
            Err(e) => Err(e),
            Ok(()) => match target(input) {
                Err(e) => Err(e),
                Ok(t) => Ok(PlayersList { target: Some(t) }),
            },
        },
    }
}

fn players_operation(input: &mut Input) -> (r: Result<PlayersOperation, Error>)
    requires
        old(input).wf(),
    ensures
        final(input).wf(),
        match r {
            Ok(v) => sp_players_operation(old(input).remaining()) == Ok::<
                (PlayersOperationView, Seq<char>),
                Error,
            >((v@, final(input).remaining())),
            Err(e) => sp_players_operation(old(input).remaining()) == Err::<
                (PlayersOperationView, Seq<char>),
                Error,
            >(e),
        },
{
    match target(input) {
        Err(e) => Err(e),
        Ok(t) => match space(input) {
            Err(e) => Err(e),
            Ok(()) => {
                let target_objective = match identifier(input) {
                    Ok(token) => token,
                    Err(e) => {
                        return Err(e);
                    },
                };
                match space(input) {
                    Err(e) => Err(e),
                    Ok(()) => match operation_type(input) {
                        Err(e) => Err(e),
                        Ok(op) => match space(input) {
                            Err(e) => Err(e),
                            Ok(()) => match target(input) {
                                Err(e) => Err(e),
                                Ok(src) => match space(input) {
                                    Err(e) => Err(e),
                                    Ok(()) => {
                                        let source_objective = match identifier(input) {
                                            Ok(token) => token,
                                            Err(e) => {
                                                return Err(e);
                                            },
                                        };
                                        Ok(
                                            PlayersOperation {
                                                targets: t,
                                                target_objective,
                                                operation: op,
                                                source: src,
                                                source_objective,
                                            },
                                        )
                                    },
                                },
                            },
                        },
                    },
                }
            },
        },
    }
}

fn operation_type(input: &mut Input) -> (r: Result<OperationType, Error>)
    requires
        old(input).wf(),
    ensures
        final(input).wf(),
        match r {
            Ok(v) => sp_operation_type(old(input).remaining()) == Ok::<
                (OperationType, Seq<char>),
                Error,
            >((v, final(input).remaining())),
            Err(e) => sp_operation_type(old(input).remaining()) == Err::<
                (OperationType, Seq<char>),
                Error,
            >(e),
        },
{
    let op = operator(input);
    if text_is(&op, "+=") {
        Ok(OperationType::Addition)
    } else if text_is(&op, "-=") {
        Ok(OperationType::Subtraction)
    } else if text_is(&op, "*=") {
        Ok(OperationType::Multiplication)
    } else if text_is(&op, "/=") {
        Ok(OperationType::Division)
    } else if text_is(&op, "%=") {
        Ok(OperationType::Modulus)
    } else if text_is(&op, "=") {
        Ok(OperationType::Assign)
    } else if text_is(&op, "<") {
        Ok(OperationType::Min)
    } else if text_is(&op, ">") {
        Ok(OperationType::Max)
    } else if text_is(&op, "><") {
        Ok(OperationType::Swap)
    } else {
        Err(Error::UnknownKeyword)
    }
}

fn players_remove(input: &mut Input) -> (r: Result<PlayersRemove, Error>)
    requires
        old(input).wf(),
    ensures
        final(input).wf(),
        match r {
            Ok(v) => sp_players_remove(old(input).remaining()) == Ok::<
                (PlayersRemoveView, Seq<char>),
                Error,
            >((v@, final(input).remaining())),
            Err(e) => sp_players_remove(old(input).remaining()) == Err::<
                (PlayersRemoveView, Seq<char>),
                Error,
            >(e),
        },
{
    match target(input) {
        Err(e) => Err(e),
        Ok(t) => match space(input) {
            Err(e) => Err(e),
            Ok(()) => {
                let objective = match identifier(input) {
                    Ok(token) => token,
                    Err(e) => {
                        return Err(e);
                    },
                };
                match space(input) {
                    Err(e) => Err(e),
                    Ok(()) => match positive_integer(input) {
                        Err(e) => Err(e),
                        Ok(score) => Ok(PlayersRemove { targets: t, objective, score }),
                    },
                }
            },
        },
    }
}

fn players_reset(input: &mut Input) -> (r: Result<PlayersReset, Error>)
    requires
        old(input).wf(),
    ensures
        final(input).wf(),
        match r {
            Ok(v) => sp_players_reset(old(input).remaining()) == Ok::<
                (PlayersResetView, Seq<char>),
                Error,
            >((v@, final(input).remaining())),
            Err(e) => sp_players_reset(old(input).remaining()) == Err::<
                (PlayersResetView, Seq<char>),
                Error,
            >(e),
        },
{
    match target(input) {
        Err(e) => Err(e),
        Ok(t) => match space(input) {
            Err(e) => Err(e),
            Ok(()) => {
                let objective = match identifier(input) {
                    Ok(token) => token,
                    Err(e) => {
                        return Err(e);
                    },
                };
                Ok(PlayersReset { targets: t, objective })
            },
        },
    }
}

fn players_set(input: &mut Input) -> (r: Result<PlayersSet, Error>)
    requires
        old(input).wf(),
    ensures
        final(input).wf(),
        match r {
            Ok(v) => sp_players_set(old(input).remaining()) == Ok::<
                (PlayersSetView, Seq<char>),
                Error,
            >((v@, final(input).remaining())),
            Err(e) => sp_players_set(old(input).remaining()) == Err::<
                (PlayersSetView, Seq<char>),
                Error,
            >(e),
        },
{
    match target(input) {
        Err(e) => Err(e),
        Ok(t) => match space(input) {
            Err(e) => Err(e),
            Ok(()) => {
                let objective = match identifier(input) {
                    Ok(token) => token,
                    Err(e) => {
                        return Err(e);
                    },
                };
                match space(input) {
                    Err(e) => Err(e),
                    Ok(()) => match signed_integer(input) {
                        Err(e) => Err(e),
                        Ok(score) => Ok(PlayersSet { targets: t, objective, score }),
                    },
                }
            },
        },
    }
}

fn function_identifier(input: &mut Input) -> (r: Result<FunctionIdentifier, Error>)
    requires
        old(input).wf(),
    ensures
        final(input).wf(),
        match r {
            Ok(v) => sp_function_identifier(old(input).remaining()) == Ok::<
                (FunctionIdentifierView, Seq<char>),
                Error,
            >((v@, final(input).remaining())),
            Err(e) => sp_function_identifier(old(input).remaining()) == Err::<
                (FunctionIdentifierView, Seq<char>),
                Error,
            >(e),
        },
{
    let first = match identifier(input) {
        Ok(token) => token,
        Err(e) => {
            return Err(e);
        },
    };
    let next = input.peek();
    match next {
        None => Ok(FunctionIdentifier { namespace: None, name: first }),
        Some(_) => match expect_char(input, ':') {
            Err(e) => Err(e),
            Ok(()) => {
                let name = match identifier(input) {
                    Ok(token) => token,
                    Err(e) => {
                        return Err(e);
                    },
                };
                Ok(FunctionIdentifier { namespace: Some(first), name })
            },
        },
    }
}

fn target(input: &mut Input) -> (r: Result<Target, Error>)
    requires
        old(input).wf(),
    ensures
        final(input).wf(),
        match r {
            Ok(v) => sp_target(old(input).remaining()) == Ok::<(TargetView, Seq<char>), Error>(
                (v@, final(input).remaining()),
            ),
            Err(e) => sp_target(old(input).remaining()) == Err::<(TargetView, Seq<char>), Error>(
                e,
            ),
        },
{
    let next = input.peek();
    let at_sign = match next {
        Some(c) => c == '@',
        None => false,
    };
    if at_sign {
        match expect_char(input, '@') {
            Err(e) => Err(e),
            Ok(()) => {
                let word = match identifier(input) {
                    Ok(token) => token,
                    Err(e) => {
                        return Err(e);
                    },
                };
                if text_is(&word, "p") {
                    Ok(Target::Selector(Selector { variable: SelectorVariable::P }))
                } else if text_is(&word, "r") {
                    Ok(Target::Selector(Selector { variable: SelectorVariable::R }))
                } else if text_is(&word, "a") {
                    Ok(Target::Selector(Selector { variable: SelectorVariable::A }))
                } else if text_is(&word, "e") {
                    Ok(Target::Selector(Selector { variable: SelectorVariable::E }))
                } else if text_is(&word, "s") {
                    Ok(Target::Selector(Selector { variable: SelectorVariable::S }))
                } else {
                    Err(Error::UnknownKeyword)
                }
            },
        }
    } else {
        let name = match identifier(input) {
            Ok(token) => token,
            Err(e) => {
                return Err(e);
            },
        };
        Ok(Target::Name(name))
    }
}

fn execute(input: &mut Input) -> (r: Result<Execute, Error>)
    requires
        old(input).wf(),
    ensures
        final(input).wf(),
        match r {
            Ok(v) => sp_execute(old(input).remaining()) == Ok::<(ExecuteView, Seq<char>), Error>(
                (v@, final(input).remaining()),
            ),
            Err(e) => sp_execute(old(input).remaining()) == Err::<(ExecuteView, Seq<char>), Error>(
                e,
            ),
        },
    decreases old(input).remaining().len(),
{
    let ghost entry = old(input).remaining();
    let kw = match identifier(input) {
        Ok(token) => token,
        Err(e) => {
            return Err(e);
        },
    };
    if text_is(&kw, "if") {
        match space(input) {
            Err(e) => Err(e),
            Ok(()) => {
                proof {
                    lemma_sp_take_parts(entry, ident_pred());
                }
                match execute_if(input) {
                    Ok(v) => Ok(Execute::If(v)),
                    Err(e) => Err(e),
                }
            },
        }
    } else {
        Err(Error::UnknownKeyword)
    }
}

fn execute_if(input: &mut Input) -> (r: Result<If, Error>)
    requires
        old(input).wf(),
    ensures
        final(input).wf(),
        match r {
            Ok(v) => sp_execute_if(old(input).remaining()) == Ok::<(IfView, Seq<char>), Error>(
                (v@, final(input).remaining()),
            ),
            Err(e) => sp_execute_if(old(input).remaining()) == Err::<(IfView, Seq<char>), Error>(
                e,
            ),
        },
    decreases old(input).remaining().len(),
{
    let ghost entry = old(input).remaining();
    let kw = match identifier(input) {
        Ok(token) => token,
        Err(e) => {
            return Err(e);
        },
    };
    if text_is(&kw, "score") {
        match space(input) {
            Err(e) => Err(e),
            Ok(()) => {
                proof {
                    lemma_sp_take_parts(entry, ident_pred());
                }
                match score(input) {
                    Ok(v) => Ok(If::Score(v)),
                    Err(e) => Err(e),
                }
            },
        }
    } else {
        Err(Error::UnknownKeyword)
    }
}

fn score(input: &mut Input) -> (r: Result<Score, Error>)
    requires
        old(input).wf(),
    ensures
        final(input).wf(),
        match r {
            Ok(v) => sp_score(old(input).remaining()) == Ok::<(ScoreView, Seq<char>), Error>(
                (v@, final(input).remaining()),
            ),
            Err(e) => sp_score(old(input).remaining()) == Err::<(ScoreView, Seq<char>), Error>(e),
        },
    decreases old(input).remaining().len(),
{
    let ghost entry = old(input).remaining();
    match target(input) {
        Err(e) => Err(e),
        Ok(t) => match space(input) {
            Err(e) => Err(e),
            Ok(()) => {
                let ghost after_space = input.remaining();
                let target_objective = match identifier(input) {
                    Ok(token) => token,
                    Err(e) => {
                        return Err(e);
                    },
                };
                match space(input) {
                    Err(e) => Err(e),
                    Ok(()) => {
                        proof {
                            lemma_sp_target_suffix(entry);
                            lemma_sp_take_parts(after_space, ident_pred());
                        }
                        comparison(input, t, target_objective)
                    },
                }
            },
        },
    }
}

#[verifier::rlimit(100)]
#[verifier::spinoff_prover]
fn comparison(input: &mut Input, t: Target, target_objective: String) -> (r: Result<Score, Error>)
    requires
        old(input).wf(),
    ensures
        final(input).wf(),
        match r {
            Ok(v) => sp_comparison(old(input).remaining(), t@, target_objective@) == Ok::<
                (ScoreView, Seq<char>),
                Error,
            >((v@, final(input).remaining())),
            Err(e) => sp_comparison(old(input).remaining(), t@, target_objective@) == Err::<
                (ScoreView, Seq<char>),
                Error,
            >(e),
        },
    decreases old(input).remaining().len(),
{
    let ghost entry = old(input).remaining();
    let op = operator(input);
    proof {
        lemma_sp_take_parts(entry, not_char_pred(' '));
    }
    if text_is(&op, "<") {
        match space(input) {
            Err(e) => Err(e),
            Ok(()) => match source_comparison(input, t, target_objective) {
                Ok(sc) => Ok(Score::Less(sc)),
                Err(e) => Err(e),
            },
        }
    } else if text_is(&op, "<=") {
        match space(input) {
            Err(e) => Err(e),
            Ok(()) => match source_comparison(input, t, target_objective) {
                Ok(sc) => Ok(Score::LessEqual(sc)),
                Err(e) => Err(e),
            },
        }
    } else if text_is(&op, ">") {
        match space(input) {
            Err(e) => Err(e),
            Ok(()) => match source_comparison(input, t, target_objective) {
                Ok(sc) => Ok(Score::Greater(sc)),
                Err(e) => Err(e),
            },
        }
    } else if text_is(&op, ">=") {
        match space(input) {
            Err(e) => Err(e),
            Ok(()) => match source_comparison(input, t, target_objective) {
                Ok(sc) => Ok(Score::GreaterEqual(sc)),
                Err(e) => Err(e),
            },
        }
    } else if text_is(&op, "=") {
        match space(input) {
            Err(e) => Err(e),
            Ok(()) => match source_comparison(input, t, target_objective) {
                Ok(sc) => Ok(Score::Equal(sc)),
                Err(e) => Err(e),
            },
        }
    } else if text_is(&op, "matches") {
        match space(input) {
            Err(e) => Err(e),
            Ok(()) => match range_comparison(input, t, target_objective) {
                Ok(rc) => Ok(Score::Matches(rc)),
                Err(e) => Err(e),
            },
        }
    } else {
        Err(Error::UnknownKeyword)
    }
}

fn source_comparison(input: &mut Input, t: Target, target_objective: String) -> (r: Result<
    SourceComparison,
    Error,
>)
    requires
        old(input).wf(),
    ensures
        final(input).wf(),
        match r {
            Ok(v) => sp_source_comparison(old(input).remaining(), t@, target_objective@) == Ok::<
                (SourceComparisonView, Seq<char>),
                Error,
            >((v@, final(input).remaining())),
            Err(e) => sp_source_comparison(old(input).remaining(), t@, target_objective@) == Err::<
                (SourceComparisonView, Seq<char>),
                Error,
            >(e),
        },
    decreases old(input).remaining().len(),
{
    let ghost entry = old(input).remaining();
    match target(input) {
        Err(e) => Err(e),
        Ok(src) => match space(input) {
            Err(e) => Err(e),
            Ok(()) => {
                let ghost after_space1 = input.remaining();
                let source_objective = match identifier(input) {
                    Ok(token) => token,
                    Err(e) => {
                        return Err(e);
                    },
                };
                match space(input) {
                    Err(e) => Err(e),
                    Ok(()) => {
                        let ghost after_space2 = input.remaining();
                        let _run_word = match identifier(input) {
                            Ok(token) => token,
                            Err(e) => {
                                return Err(e);
                            },
                        };
                        match space(input) {
                            Err(e) => Err(e),
                            Ok(()) => {
                                proof {
                                    lemma_sp_target_suffix(entry);
                                    lemma_sp_take_parts(after_space1, ident_pred());
                                    lemma_sp_take_parts(after_space2, ident_pred());
                                }
                                match command(input) {
                                    Err(e) => Err(e),
                                    Ok(cmd) => Ok(
                                        SourceComparison {
                                            target: t,
                                            target_objective,
                                            source: src,
                                            source_objective,
                                            command: Box::new(cmd),
                                        },
                                    ),
                                }
                            },
                        }
                    },
                }
            },
        },
    }
}

fn range_comparison(input: &mut Input, t: Target, target_objective: String) -> (r: Result<
    RangeComparison,
    Error,
>)
    requires
        old(input).wf(),
    ensures
        final(input).wf(),
        match r {
            Ok(v) => sp_range_comparison(old(input).remaining(), t@, target_objective@) == Ok::<
                (RangeComparisonView, Seq<char>),
                Error,
            >((v@, final(input).remaining())),
            Err(e) => sp_range_comparison(old(input).remaining(), t@, target_objective@) == Err::<
                (RangeComparisonView, Seq<char>),
                Error,
            >(e),
        },
    decreases old(input).remaining().len(),
{
    let ghost entry = old(input).remaining();
    match interval(input) {
        Err(e) => Err(e),
        Ok(iv) => match space(input) {
            Err(e) => Err(e),
            Ok(()) => {
                let ghost after_space = input.remaining();
                let _run_word = match identifier(input) {
                    Ok(token) => token,
                    Err(e) => {
                        return Err(e);
                    },
                };
                match space(input) {
                    Err(e) => Err(e),
                    Ok(()) => {
                        proof {
                            lemma_sp_interval_suffix(entry);
                            lemma_sp_take_parts(after_space, ident_pred());
                        }
                        match command(input) {
                            Err(e) => Err(e),
                            Ok(cmd) => Ok(
                                RangeComparison {
                                    target: t,
                                    target_objective,
                                    interval: iv,
                                    command: Box::new(cmd),
                                },
                            ),
                        }
                    },
                }
            },
        },
    }
}

fn interval(input: &mut Input) -> (r: Result<Interval, Error>)
    requires
        old(input).wf(),
    ensures
        final(input).wf(),
        match r {
            Ok(v) => sp_interval(old(input).remaining()) == Ok::<(Interval, Seq<char>), Error>(
                (v, final(input).remaining()),
            ),
            Err(e) => sp_interval(old(input).remaining()) == Err::<(Interval, Seq<char>), Error>(
                e,
            ),
        },
{
    let next = input.peek();
    let leading_dot = match next {
        Some(c) => c == '.',
        None => false,
    };
    if leading_dot {
        match expect_char(input, '.') {
            Err(e) => Err(e),
            Ok(()) => match expect_char(input, '.') {
                Err(e) => Err(e),
                Ok(()) => match signed_integer(input) {
                    Err(e) => Err(e),
                    Ok(b) => Ok(Interval::LeftUnbounded(b)),
                },
            },
        }
    } else {
        match signed_integer(input) {
            Err(e) => Err(e),
            Ok(a) => {
                let next2 = input.peek();
                let dot = match next2 {
                    Some(c) => c == '.',
                    None => false,
                };
                if dot {
                    match expect_char(input, '.') {
                        Err(e) => Err(e),
                        Ok(()) => match expect_char(input, '.') {
                            Err(e) => Err(e),
                            Ok(()) => {
                                let next3 = input.peek();
                                let more = match next3 {
                                    Some(c) => ascii_digit(c) || c == '-',
                                    None => false,
                                };
                                if more {
                                    match signed_integer(input) {
                                        Err(e) => Err(e),
                                        Ok(b) => Ok(Interval::Bounded(a, b)),
                                    }
                                } else {
                                    Ok(Interval::RightUnbounded(a))
                                }
                            },
                        },
                    }
                } else {
                    Ok(Interval::Value(a))
                }
            },
        }
    }
}

} // verus!
