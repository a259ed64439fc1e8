//! A pull lexer for XML documents.
//!
//! [`PullLexer`] reads characters one at a time from a [`CharReader`] and
//! groups them into [`Token`] values: markup delimiters such as `<!--` or
//! `]]>`, quotes, bare characters and whitespace.  The lexer keeps exact
//! row/column positions for diagnostics, holds at most one character of
//! pushback, and can either report invalid markup as errors (strict mode)
//! or hand the partial fragment back as a [`Token::Chunk`] (lenient mode).

use crate::common::is_name_char;
use crate::common::is_whitespace_char;
use crate::common::push_char;
use crate::common::spec_is_name_char;
use crate::common::spec_is_whitespace_char;
use crate::common::Error;
use crate::common::ErrorModel;
use vstd::prelude::*;
use vstd::string::StrSliceExecFns;
use vstd::string::StringExecFns;

verus! {

/// `Token` represents a single lexeme of an XML document.
#[derive(Clone, PartialEq, Eq, Debug)]
pub enum Token {
    /// `<?`
    ProcessingInstructionStart,
    /// `?>`
    ProcessingInstructionEnd,
    /// `<!DOCTYPE`
    DoctypeStart,
    /// `<`
    OpeningTagStart,
    /// `</`
    ClosingTagStart,
    /// `>`
    TagEnd,
    /// `/>`
    EmptyTagEnd,
    /// `<!--`
    CommentStart,
    /// `-->`
    CommentEnd,
    /// A chunk of characters, used for error recovery.
    Chunk(&'static str),
    /// Any non-special character except whitespace.
    Character(char),
    /// Whitespace character.
    Whitespace(char),
    /// `=`
    EqualsSign,
    /// `'`
    SingleQuote,
    /// `"`
    DoubleQuote,
    /// `<![CDATA[`
    CDataStart,
    /// `]]>`
    CDataEnd,
    /// `&`
    ReferenceStart,
    /// `;`
    ReferenceEnd,
}

/// The canonical text of a token, as a character sequence.  Fixed markup
/// delimiters render as their fixed text; `Character` and `Whitespace`
/// render as the carried character; `Chunk` renders as the carried text.
pub open spec fn spec_render(t: Token) -> Seq<char> {
    match t {
        Token::ProcessingInstructionStart => seq!['<', '?'],
        Token::ProcessingInstructionEnd => seq!['?', '>'],
        Token::DoctypeStart => seq!['<', '!', 'D', 'O', 'C', 'T', 'Y', 'P', 'E'],
        Token::OpeningTagStart => seq!['<'],
        Token::ClosingTagStart => seq!['<', '/'],
        Token::TagEnd => seq!['>'],
        Token::EmptyTagEnd => seq!['/', '>'],
        Token::CommentStart => seq!['<', '!', '-', '-'],
        Token::CommentEnd => seq!['-', '-', '>'],
        Token::Chunk(s) => s@,
        Token::Character(c) => seq![c],
        Token::Whitespace(c) => seq![c],
        Token::EqualsSign => seq!['='],
        Token::SingleQuote => seq!['\''],
        Token::DoubleQuote => seq!['"'],
        Token::CDataStart => seq!['<', '!', '[', 'C', 'D', 'A', 'T', 'A', '['],
        Token::CDataEnd => seq![']', ']', '>'],
        Token::ReferenceStart => seq!['&'],
        Token::ReferenceEnd => seq![';'],
    }
}

/// Whether a token is a fixed markup delimiter, that is, one whose text
/// never varies between occurrences.
pub open spec fn spec_has_static_text(t: Token) -> bool {
    !(t is Chunk || t is Character || t is Whitespace)
}

impl Token {
    /// Returns the fixed text of a markup delimiter token, or `None` for
    /// `Chunk`, `Character` and `Whitespace` tokens, whose text varies.
    pub fn as_static_str(&self) -> (r: Option<&'static str>)
        ensures
            match r {
                Some(s) => spec_has_static_text(*self) && s@ == spec_render(*self),
                None => !spec_has_static_text(*self),
            },
    {
        proof {
            reveal_strlit("<");
            reveal_strlit("<?");
            reveal_strlit("<!DOCTYPE");
            reveal_strlit("</");
            reveal_strlit("<!--");
            reveal_strlit("<![CDATA[");
            reveal_strlit(">");
            reveal_strlit("/>");
            reveal_strlit("?>");
            reveal_strlit("-->");
            reveal_strlit("]]>");
            reveal_strlit("&");
            reveal_strlit(";");
            reveal_strlit("=");
            reveal_strlit("'");
            reveal_strlit("\"");
        }
        match *self {
            Token::OpeningTagStart => Some("<"),
            Token::ProcessingInstructionStart => Some("<?"),
            Token::DoctypeStart => Some("<!DOCTYPE"),
            Token::ClosingTagStart => Some("</"),
            Token::CommentStart => Some("<!--"),
            Token::CDataStart => Some("<![CDATA["),
            Token::TagEnd => Some(">"),
            Token::EmptyTagEnd => Some("/>"),
            Token::ProcessingInstructionEnd => Some("?>"),
            Token::CommentEnd => Some("-->"),
            Token::CDataEnd => Some("]]>"),
            Token::ReferenceStart => Some("&"),
            Token::ReferenceEnd => Some(";"),
            Token::EqualsSign => Some("="),
            Token::SingleQuote => Some("'"),
            Token::DoubleQuote => Some("\""),
            _ => None,
        }
    }

    /// Returns `true` if this token contains data that can be interpreted
    /// as a part of the text.  Surprisingly, this also holds of `>`, `=`,
    /// `"` and `'`, which are valid raw text outside of markup.
    pub fn contains_char_data(&self) -> (r: bool)
        ensures
            r == (*self is Whitespace || *self is Chunk || *self is Character
                || *self is TagEnd || *self is EqualsSign || *self is DoubleQuote
                || *self is SingleQuote),
    {
        match *self {
            Token::Whitespace(_) | Token::Chunk(_) | Token::Character(_) | Token::TagEnd
                | Token::EqualsSign | Token::DoubleQuote | Token::SingleQuote => true,
            _ => false,
        }
    }

    /// Returns the canonical text of this token as a fresh string: the
    /// fixed text of a markup delimiter, the carried character of a
    /// `Character` or `Whitespace`, or the carried text of a `Chunk`.
    pub fn rendered(&self) -> (r: String)
        ensures
            r@ == spec_render(*self),
    {
        match self.as_static_str() {
            Some(s) => s.to_owned(),
            None => match *self {
                Token::Chunk(s) => s.to_owned(),
                Token::Character(c) | Token::Whitespace(c) => {
                    let mut r = String::new();
                    push_char(&mut r, c);
                    proof {
                        assert(r@ =~= spec_render(*self));
                    }
                    r
                },
                _ => {
                    proof {
                        assert(false);
                    }
                    String::new()
                },
            },
        }
    }

    /// Returns `true` if this token corresponds to a white space character.
    pub fn is_whitespace(&self) -> (r: bool)
        ensures
            r == (*self is Whitespace),
    {
        match *self {
            Token::Whitespace(_) => true,
            _ => false,
        }
    }
}

/// `LexResult` represents a lexing result: either a token or an error.
pub type LexResult = Result<Token, Error>;

/// Progress through the two characters of a two-character closer
/// (`--` before `>`, or `]]` before `>`).
#[derive(Clone, Copy, PartialEq, Eq, Debug)]
pub enum ClosingSubstate {
    First,
    Second,
}

/// Progress through the fixed text `DOCTYPE`, one value per matched prefix.
#[derive(Clone, Copy, PartialEq, Eq, Debug)]
pub enum DoctypeStartedSubstate {
    D,
    DO,
    DOC,
    DOCT,
    DOCTY,
    DOCTYP,
}

/// Progress through the fixed text `[CDATA[`, one value per matched prefix.
#[derive(Clone, Copy, PartialEq, Eq, Debug)]
pub enum CDataStartedSubstate {
    E,
    C,
    CD,
    CDA,
    CDAT,
    CDATA,
}

/// The lexer's recognition mode: which partially matched multi-character
/// markup sequence, if any, is pending.
#[derive(Clone, Copy, PartialEq, Eq, Debug)]
pub enum State {
    /// Triggered on `<`
    TagOpened,
    /// Triggered on `<!`
    CommentOrCDataOrDoctypeStarted,
    /// Triggered on `<!-`
    CommentStarted,
    /// Triggered on `<!D` up to `<!DOCTYPE`
    DoctypeStarted(DoctypeStartedSubstate),
    /// Triggered on `<![` up to `<![CDATA[`
    CDataStarted(CDataStartedSubstate),
    /// Triggered on `?`
    ProcessingInstructionClosing,
    /// Triggered on `/`
    EmptyTagClosing,
    /// Triggered on `-` up to `--`
    CommentClosing(ClosingSubstate),
    /// Triggered on `]` up to `]]`
    CDataClosing(ClosingSubstate),
    /// Default state
    Normal,
}

/// What one transition of the state machine produces: either nothing yet
/// (`None`), a token, or a strict-mode lexical mismatch carrying the
/// fragment consumed so far.
pub enum StepOut {
    Tok(Token),
    Mismatch(&'static str),
}

/// The outcome of feeding one character to the state machine: the state
/// afterwards, the pushback slot afterwards, and what was produced.
pub struct StepModel {
    pub state: State,
    pub pushback: Option<char>,
    pub out: Option<StepOut>,
}

/// The state advances and no token is produced yet.
pub open spec fn step_stay(st: State) -> StepModel {
    StepModel { state: st, pushback: None, out: None }
}

/// A token is produced and the state resets to `Normal`.
pub open spec fn step_emit(t: Token) -> StepModel {
    StepModel { state: State::Normal, pushback: None, out: Some(StepOut::Tok(t)) }
}

/// A token is produced, the state resets to `Normal`, and the character
/// just read is re-queued: it belongs to the next token.
pub open spec fn step_emit_unread(c: char, t: Token) -> StepModel {
    StepModel { state: State::Normal, pushback: Some(c), out: Some(StepOut::Tok(t)) }
}

/// A character that does not continue the expected fixed sequence.  In
/// lenient mode the accumulated fragment comes back as a `Chunk` token and
/// lexing resumes from the offending character; in strict mode a mismatch
/// is produced and the state is left as it was.
pub open spec fn step_mismatch(st: State, skip_errors: bool, chunk: &'static str, c: char) -> StepModel {
    if skip_errors {
        StepModel { state: State::Normal, pushback: Some(c), out: Some(StepOut::Tok(Token::Chunk(chunk))) }
    } else {
        StepModel { state: st, pushback: Some(c), out: Some(StepOut::Mismatch(chunk)) }
    }
}

/// Transition out of `Normal`: classify one character.
pub open spec fn spec_normal(c: char) -> StepModel {
    if c == '<' {
        step_stay(State::TagOpened)
    } else if c == '>' {
        step_emit(Token::TagEnd)
    } else if c == '/' {
        step_stay(State::EmptyTagClosing)
    } else if c == '=' {
        step_emit(Token::EqualsSign)
    } else if c == '"' {
        step_emit(Token::DoubleQuote)
    } else if c == '\'' {
        step_emit(Token::SingleQuote)
    } else if c == '?' {
        step_stay(State::ProcessingInstructionClosing)
    } else if c == '-' {
        step_stay(State::CommentClosing(ClosingSubstate::First))
    } else if c == ']' {
        step_stay(State::CDataClosing(ClosingSubstate::First))
    } else if c == '&' {
        step_emit(Token::ReferenceStart)
    } else if c == ';' {
        step_emit(Token::ReferenceEnd)
    } else if spec_is_whitespace_char(c) {
        step_emit(Token::Whitespace(c))
    } else {
        step_emit(Token::Character(c))
    }
}

/// Transition out of `TagOpened` (`<` seen).
pub open spec fn spec_tag_opened(skip_errors: bool, c: char) -> StepModel {
    if c == '?' {
        step_emit(Token::ProcessingInstructionStart)
    } else if c == '/' {
        step_emit(Token::ClosingTagStart)
    } else if c == '!' {
        step_stay(State::CommentOrCDataOrDoctypeStarted)
    } else if spec_is_whitespace_char(c) || spec_is_name_char(c) {
        step_emit_unread(c, Token::OpeningTagStart)
    } else {
        step_mismatch(State::TagOpened, skip_errors, "<", c)
    }
}

/// Transition out of `CommentOrCDataOrDoctypeStarted` (`<!` seen).
pub open spec fn spec_comment_or_cdata_or_doctype_started(skip_errors: bool, c: char) -> StepModel {
    if c == '-' {
        step_stay(State::CommentStarted)
    } else if c == '[' {
        step_stay(State::CDataStarted(CDataStartedSubstate::E))
    } else if c == 'D' {
        step_stay(State::DoctypeStarted(DoctypeStartedSubstate::D))
    } else {
        step_mismatch(State::CommentOrCDataOrDoctypeStarted, skip_errors, "<!", c)
    }
}

/// Transition out of `CommentStarted` (`<!-` seen).
pub open spec fn spec_comment_started(skip_errors: bool, c: char) -> StepModel {
    if c == '-' {
        step_emit(Token::CommentStart)
    } else {
        step_mismatch(State::CommentStarted, skip_errors, "<!-", c)
    }
}

/// Transition out of `CDataStarted` (`<![` up to `<![CDATA` seen): match
/// the remaining letters of `[CDATA[` one at a time.
pub open spec fn spec_cdata_started(skip_errors: bool, s: CDataStartedSubstate, c: char) -> StepModel {
    match s {
        CDataStartedSubstate::E => if c == 'C' {
            step_stay(State::CDataStarted(CDataStartedSubstate::C))
        } else {
            step_mismatch(State::CDataStarted(s), skip_errors, "<![", c)
        },
        CDataStartedSubstate::C => if c == 'D' {
            step_stay(State::CDataStarted(CDataStartedSubstate::CD))
        } else {
            step_mismatch(State::CDataStarted(s), skip_errors, "<![C", c)
        },
        CDataStartedSubstate::CD => if c == 'A' {
            step_stay(State::CDataStarted(CDataStartedSubstate::CDA))
        } else {
            step_mismatch(State::CDataStarted(s), skip_errors, "<![CD", c)
        },
        CDataStartedSubstate::CDA => if c == 'T' {
            step_stay(State::CDataStarted(CDataStartedSubstate::CDAT))
        } else {
            step_mismatch(State::CDataStarted(s), skip_errors, "<![CDA", c)
        },
        CDataStartedSubstate::CDAT => if c == 'A' {
            step_stay(State::CDataStarted(CDataStartedSubstate::CDATA))
        } else {
            step_mismatch(State::CDataStarted(s), skip_errors, "<![CDAT", c)
        },
        CDataStartedSubstate::CDATA => if c == '[' {
            step_emit(Token::CDataStart)
        } else {
            step_mismatch(State::CDataStarted(s), skip_errors, "<![CDATA", c)
        },
    }
}

/// Transition out of `DoctypeStarted` (`<!D` up to `<!DOCTYP` seen): match
/// the remaining letters of `OCTYPE` one at a time.
pub open spec fn spec_doctype_started(skip_errors: bool, s: DoctypeStartedSubstate, c: char) -> StepModel {
    match s {
        DoctypeStartedSubstate::D => if c == 'O' {
            step_stay(State::DoctypeStarted(DoctypeStartedSubstate::DO))
        } else {
            step_mismatch(State::DoctypeStarted(s), skip_errors, "<!D", c)
        },
        DoctypeStartedSubstate::DO => if c == 'C' {
            step_stay(State::DoctypeStarted(DoctypeStartedSubstate::DOC))
        } else {
            step_mismatch(State::DoctypeStarted(s), skip_errors, "<!DO", c)
        },
        DoctypeStartedSubstate::DOC => if c == 'T' {
            step_stay(State::DoctypeStarted(DoctypeStartedSubstate::DOCT))
        } else {
            step_mismatch(State::DoctypeStarted(s), skip_errors, "<!DOC", c)
        },
        DoctypeStartedSubstate::DOCT => if c == 'Y' {
            step_stay(State::DoctypeStarted(DoctypeStartedSubstate::DOCTY))
        } else {
            step_mismatch(State::DoctypeStarted(s), skip_errors, "<!DOCT", c)
        },
        DoctypeStartedSubstate::DOCTY => if c == 'P' {
            step_stay(State::DoctypeStarted(DoctypeStartedSubstate::DOCTYP))
        } else {
            step_mismatch(State::DoctypeStarted(s), skip_errors, "<!DOCTY", c)
        },
        DoctypeStartedSubstate::DOCTYP => if c == 'E' {
            step_emit(Token::DoctypeStart)
        } else {
            step_mismatch(State::DoctypeStarted(s), skip_errors, "<!DOCTYP", c)
        },
    }
}

/// Transition out of `ProcessingInstructionClosing` (`?` seen).
pub open spec fn spec_processing_instruction_closing(c: char) -> StepModel {
    if c == '>' {
        step_emit(Token::ProcessingInstructionEnd)
    } else {
        step_emit_unread(c, Token::Character('?'))
    }
}

/// Transition out of `EmptyTagClosing` (`/` seen).
pub open spec fn spec_empty_element_closing(c: char) -> StepModel {
    if c == '>' {
        step_emit(Token::EmptyTagEnd)
    } else {
        step_emit_unread(c, Token::Character('/'))
    }
}

/// Transition out of `CommentClosing` (`-` or `--` seen).
pub open spec fn spec_comment_closing(s: ClosingSubstate, c: char) -> StepModel {
    match s {
        ClosingSubstate::First => if c == '-' {
            step_stay(State::CommentClosing(ClosingSubstate::Second))
        } else {
            step_emit_unread(c, Token::Character('-'))
        },
        ClosingSubstate::Second => if c == '>' {
            step_emit(Token::CommentEnd)
        } else {
            step_emit_unread(c, Token::Chunk("--"))
        },
    }
}

/// Transition out of `CDataClosing` (`]` or `]]` seen).
pub open spec fn spec_cdata_closing(s: ClosingSubstate, c: char) -> StepModel {
    match s {
        ClosingSubstate::First => if c == ']' {
            step_stay(State::CDataClosing(ClosingSubstate::Second))
        } else {
            step_emit_unread(c, Token::Character(']'))
        },
        ClosingSubstate::Second => if c == '>' {
            step_emit(Token::CDataEnd)
        } else {
            step_emit_unread(c, Token::Chunk("]]"))
        },
    }
}

/// One transition of the state machine: dispatch on the current state.
pub open spec fn spec_dispatch(st: State, skip_errors: bool, c: char) -> StepModel {
    match st {
        State::Normal => spec_normal(c),
        State::TagOpened => spec_tag_opened(skip_errors, c),
        State::CommentOrCDataOrDoctypeStarted => spec_comment_or_cdata_or_doctype_started(
            skip_errors,
            c,
        ),
        State::CommentStarted => spec_comment_started(skip_errors, c),
        State::CDataStarted(s) => spec_cdata_started(skip_errors, s, c),
        State::DoctypeStarted(s) => spec_doctype_started(skip_errors, s, c),
        State::ProcessingInstructionClosing => spec_processing_instruction_closing(c),
        State::EmptyTagClosing => spec_empty_element_closing(c),
        State::CommentClosing(s) => spec_comment_closing(s, c),
        State::CDataClosing(s) => spec_cdata_closing(s, c),
    }
}

/// The mathematical value of a [`PullLexer`]: position, pushback slot,
/// recognition state, error mode and the end-of-stream flag.
pub struct LexerModel {
    pub row: nat,
    pub col: nat,
    pub pushback: Option<char>,
    pub state: State,
    pub skip_errors: bool,
    pub eof_handled: bool,
}

/// The state of a freshly created lexer: position `(0, 0)`, no pushback,
/// `Normal` state, strict error mode, end of stream not yet reached.
pub open spec fn spec_initial() -> LexerModel {
    LexerModel {
        row: 0,
        col: 0,
        pushback: None,
        state: State::Normal,
        skip_errors: false,
        eof_handled: false,
    }
}

/// Row after consuming `c`: a newline moves to the next row.
pub open spec fn spec_row_after(row: nat, c: char) -> nat {
    if c == '\n' {
        row + 1
    } else {
        row
    }
}

/// Column after consuming `c`: a newline resets the column to zero, any
/// other character advances it.
pub open spec fn spec_col_after(col: nat, c: char) -> nat {
    if c == '\n' {
        0
    } else {
        col + 1
    }
}

/// The column reported for a lexical mismatch: the current column minus
/// the fragment's length minus one, so that it addresses the fragment's
/// first character.  When the offending character is a newline the current
/// column has already been reset and the difference saturates to zero.
pub open spec fn spec_error_col(col: nat, chunk: Seq<char>) -> nat {
    if col > chunk.len() {
        (col - chunk.len() - 1) as nat
    } else {
        0
    }
}

/// The message of a lexical mismatch error.
pub open spec fn spec_error_msg(chunk: Seq<char>, c: char) -> Seq<char> {
    "Unexpected token "@ + chunk + " before "@ + seq![c]
}

/// The error reported for a lexical mismatch at the given position, where
/// `row` and `col` are the position after consuming `c`.
pub open spec fn spec_mismatch_error(row: nat, col: nat, chunk: &'static str, c: char) -> ErrorModel {
    ErrorModel { row, col: spec_error_col(col, chunk@), msg: spec_error_msg(chunk@, c) }
}

/// What one consumed character does to the whole lexer: the position
/// advances, the state machine steps, and a strict-mode mismatch becomes
/// an error at the just-updated position.
pub struct CharStep {
    pub lexer: LexerModel,
    pub out: Option<Result<Token, ErrorModel>>,
}

/// Turns what a transition produced into the lexer's response, building
/// the error value for a strict-mode mismatch from the position `(row,
/// col)` that held after the offending character was consumed.
pub open spec fn spec_step_result(out: Option<StepOut>, row: nat, col: nat, c: char) -> Option<
    Result<Token, ErrorModel>,
> {
    match out {
        None => None,
        Some(StepOut::Tok(t)) => Some(Ok(t)),
        Some(StepOut::Mismatch(chunk)) => Some(Err(spec_mismatch_error(row, col, chunk, c))),
    }
}

/// Feeds one consumed character to the lexer.
pub open spec fn spec_read_next_token(lx: LexerModel, c: char) -> CharStep {
    let row2 = spec_row_after(lx.row, c);
    let col2 = spec_col_after(lx.col, c);
    let step = spec_dispatch(lx.state, lx.skip_errors, c);
    CharStep {
        lexer: LexerModel { row: row2, col: col2, pushback: step.pushback, state: step.state, ..lx },
        out: spec_step_result(step.out, row2, col2, c),
    }
}

/// The error reported when the input ends inside a multi-character
/// sequence that has no valid shorter interpretation.
pub open spec fn spec_eof_error(lx: LexerModel) -> ErrorModel {
    ErrorModel { row: lx.row, col: lx.col, msg: "Unexpected end of stream"@ }
}

/// What end-of-stream finalization produces in each state.  States whose
/// pending prefix is itself valid text finalize as that character or
/// chunk; `Normal` finalizes silently; every other state is a fatal error.
pub open spec fn spec_eof_output(lx: LexerModel) -> Option<Result<Token, ErrorModel>> {
    match lx.state {
        State::TagOpened => Some(Err(spec_eof_error(lx))),
        State::CommentOrCDataOrDoctypeStarted => Some(Err(spec_eof_error(lx))),
        State::CommentStarted => Some(Err(spec_eof_error(lx))),
        State::CDataStarted(_) => Some(Err(spec_eof_error(lx))),
        State::DoctypeStarted(_) => Some(Err(spec_eof_error(lx))),
        State::ProcessingInstructionClosing => Some(Ok(Token::Character('?'))),
        State::EmptyTagClosing => Some(Ok(Token::Character('/'))),
        State::CommentClosing(s) => match s {
            ClosingSubstate::First => Some(Ok(Token::Character('-'))),
            ClosingSubstate::Second => Some(Err(spec_eof_error(lx))),
        },
        State::CDataClosing(s) => match s {
            ClosingSubstate::First => Some(Ok(Token::Character(']'))),
            ClosingSubstate::Second => Some(Ok(Token::Chunk("]]"))),
        },
        State::Normal => None,
    }
}

/// The outcome of one token request: the lexer afterwards, the input not
/// yet consumed, and the response — a token, an error, or `None` for
/// "stream exhausted".
pub struct DriveResult {
    pub lexer: LexerModel,
    pub rest: Seq<char>,
    pub out: Option<Result<Token, ErrorModel>>,
}

/// End-of-stream finalization: performed at most once; afterwards the
/// lexer reports exhaustion forever.
pub open spec fn spec_finalize(lx: LexerModel, input: Seq<char>) -> DriveResult {
    DriveResult {
        lexer: LexerModel { eof_handled: true, ..lx },
        rest: input,
        out: spec_eof_output(lx),
    }
}

/// Consumes characters from `input` until the state machine yields, or
/// finalizes when the input runs out first.
pub open spec fn spec_run(lx: LexerModel, input: Seq<char>) -> DriveResult
    decreases input.len(),
{
    if input.len() == 0 {
        spec_finalize(lx, input)
    } else {
        let step = spec_read_next_token(lx, input[0]);
        match step.out {
            Some(o) => DriveResult { lexer: step.lexer, rest: input.skip(1), out: Some(o) },
            None => spec_run(step.lexer, input.skip(1)),
        }
    }
}

/// One token request against the remaining `input`: the whole behaviour
/// of [`PullLexer::next_token`].  A held pushback character is consumed
/// first (and runs through position tracking again, as the driver counts
/// every consumed character); then characters are pulled from the input.
pub open spec fn spec_next_token(lx: LexerModel, input: Seq<char>) -> DriveResult {
    if lx.eof_handled {
        DriveResult { lexer: lx, rest: input, out: None }
    } else {
        match lx.pushback {
            Some(c) => {
                let step = spec_read_next_token(LexerModel { pushback: None, ..lx }, c);
                match step.out {
                    Some(o) => DriveResult { lexer: step.lexer, rest: input, out: Some(o) },
                    None => spec_run(step.lexer, input),
                }
            },
            None => spec_run(lx, input),
        }
    }
}

/// Whether the lexer's response `r` carries the same value as the
/// mathematical response `m`: the same token, an error with the given
/// position and message, or exhaustion on both sides.
pub open spec fn out_matches(r: Option<Result<Token, Error>>, m: Option<Result<Token, ErrorModel>>) -> bool {
    match (r, m) {
        (None, None) => true,
        (Some(Ok(t)), Some(Ok(tm))) => t == tm,
        (Some(Err(e)), Some(Err(em))) => e@ == em,
        _ => false,
    }
}

/// A pull-style character source: hands out the characters of an input,
/// one at a time, then signals that none remain.  Its view is the
/// sequence of characters not yet read.
pub struct CharReader {
    chars: Vec<char>,
    pos: usize,
}

impl View for CharReader {
    type V = Seq<char>;

    closed spec fn view(&self) -> Seq<char> {
        self.chars@.skip(self.pos as int)
    }
}

impl CharReader {
    #[verifier::type_invariant]
    spec fn wf(self) -> bool {
        self.pos <= self.chars@.len()
    }

    /// Builds a source that will hand out the given characters in order.
    pub fn new(chars: Vec<char>) -> (r: CharReader)
        ensures
            r@ == chars@,
    {
        let r = CharReader { chars, pos: 0 };
        proof {
            assert(r@ =~= r.chars@);
        }
        r
    }

    /// Reads one character, or reports that none remain.
    pub fn read_char(&mut self) -> (r: Option<char>)
        ensures
            match r {
                Some(c) => old(self)@.len() > 0 && c == old(self)@[0] && final(self)@ == old(
                    self,
                )@.skip(1),
                None => old(self)@.len() == 0 && final(self)@ == old(self)@,
            },
    {
        proof {
            use_type_invariant(&*self);
        }
        if self.pos < self.chars.len() {
            let c = self.chars[self.pos];
            self.pos = self.pos + 1;
            proof {
                assert(self@ =~= old(self)@.skip(1));
            }
            Some(c)
        } else {
            None
        }
    }
}

/// `PullLexer` is a lexer for XML documents which implements a pull API.
///
/// The main method is [`next_token`](PullLexer::next_token), which reads
/// from a [`CharReader`] until a lexeme is complete and returns it.
///
/// When the `skip_errors` flag is set, invalid lexemes are returned as
/// [`Token::Chunk`]s.  When it is not set, they are reported as [`Error`]
/// values.  By default the flag is not set; use
/// [`enable_errors`](PullLexer::enable_errors) and
/// [`disable_errors`](PullLexer::disable_errors) to toggle the behaviour.
pub struct PullLexer {
    row: usize,
    col: usize,
    temp_char: Option<char>,
    st: State,
    skip_errors: bool,
    eof_handled: bool,
}

impl View for PullLexer {
    type V = LexerModel;

    closed spec fn view(&self) -> LexerModel {
        LexerModel {
            row: self.row as nat,
            col: self.col as nat,
            pushback: self.temp_char,
            state: self.st,
            skip_errors: self.skip_errors,
            eof_handled: self.eof_handled,
        }
    }
}

/// Returns a new lexer with default state.
pub fn new() -> (lexer: PullLexer)
    ensures
        lexer@ == spec_initial(),
{
    PullLexer {
        row: 0,
        col: 0,
        temp_char: None,
        st: State::Normal,
        skip_errors: false,
        eof_handled: false,
    }
}

impl PullLexer {
    /// Returns the current row in the input document, zero-based.
    pub fn row(&self) -> (r: usize)
        ensures
            r == self@.row,
    {
        self.row
    }

    /// Returns the current column in the input document, zero-based.
    pub fn col(&self) -> (c: usize)
        ensures
            c == self@.col,
    {
        self.col
    }

    /// Enables error reporting, so `next_token` returns `Some(Err(..))`
    /// upon an invalid lexeme.
    pub fn enable_errors(&mut self)
        ensures
            final(self)@ == (LexerModel { skip_errors: false, ..old(self)@ }),
    {
        self.skip_errors = false;
    }

    /// Disables error reporting, so `next_token` returns a `Chunk` token
    /// with the invalid lexeme's content instead.
    pub fn disable_errors(&mut self)
        ensures
            final(self)@ == (LexerModel { skip_errors: true, ..old(self)@ }),
    {
        self.skip_errors = true;
    }

    /// Tries to read the next token from the source.
    ///
    /// Returns `None` when the logical end of stream has been reached,
    /// that is, when the source is exhausted and the current state has
    /// been finalized.  The whole behaviour, including how the position,
    /// state and pushback slot evolve, is given by [`spec_next_token`].
    pub fn next_token(&mut self, b: &mut CharReader) -> (r: Option<LexResult>)
        requires
            old(self)@.row + old(b)@.len() + 1 <= usize::MAX,
            old(self)@.col + old(b)@.len() + 1 <= usize::MAX,
        ensures
            ({
                let d = spec_next_token(old(self)@, old(b)@);
                &&& final(self)@ == d.lexer
                &&& final(b)@ == d.rest
                &&& out_matches(r, d.out)
            }),
    {
        // Already reached end of stream on an earlier call
        if self.eof_handled {
            return None;
        }
        // Check if we have saved a char for ourselves
        match self.temp_char {
            Some(c) => {
                self.temp_char = None;
                match self.read_next_token(c) {
                    Some(t) => {
                        return Some(t);
                    },
                    None => {},
                }
            },
            None => {},
        }
        // Read more data from the source
        loop
            invariant
                self@.pushback is None,
                !self@.eof_handled,
                self@.row + b@.len() <= usize::MAX,
                self@.col + b@.len() <= usize::MAX,
                spec_run(self@, b@) == spec_next_token(old(self)@, old(b)@),
            ensures
                b@.len() == 0,
                self@.pushback is None,
                !self@.eof_handled,
                spec_run(self@, b@) == spec_next_token(old(self)@, old(b)@),
            decreases b@.len(),
        {
            match b.read_char() {
                Some(c) => {
                    match self.read_next_token(c) {
                        Some(t) => {
                            return Some(t);
                        },
                        None => {},
                    }
                },
                None => {
                    break;
                },
            }
        }
        // Handle end of stream
        self.eof_handled = true;
        match self.st {
            State::TagOpened | State::CommentOrCDataOrDoctypeStarted | State::CommentStarted
                | State::CDataStarted(_) | State::DoctypeStarted(_) | State::CommentClosing(
                ClosingSubstate::Second,
            ) => Some(Err(self.error("Unexpected end of stream"))),
            State::ProcessingInstructionClosing => Some(Ok(Token::Character('?'))),
            State::EmptyTagClosing => Some(Ok(Token::Character('/'))),
            State::CommentClosing(ClosingSubstate::First) => Some(Ok(Token::Character('-'))),
            State::CDataClosing(ClosingSubstate::First) => Some(Ok(Token::Character(']'))),
            State::CDataClosing(ClosingSubstate::Second) => Some(Ok(Token::Chunk("]]"))),
            State::Normal => None,
        }
    }

    /// Builds an error at the lexer's current position.
    fn error(&self, msg: &str) -> (e: Error)
        ensures
            e@ == (ErrorModel { row: self@.row, col: self@.col, msg: msg@ }),
    {
        Error::new_full(self.row, self.col, msg.to_owned())
    }

    /// Updates the position for one consumed character and feeds it to
    /// the state machine.
    fn read_next_token(&mut self, c: char) -> (r: Option<Result<Token, Error>>)
        requires
            old(self)@.pushback is None,
            old(self)@.row + 1 <= usize::MAX,
            old(self)@.col + 1 <= usize::MAX,
        ensures
            ({
                let s = spec_read_next_token(old(self)@, c);
                &&& final(self)@ == s.lexer
                &&& out_matches(r, s.out)
            }),
    {
        if c == '\n' {
            self.row = self.row + 1;
            self.col = 0;
        } else {
            self.col = self.col + 1;
        }
        self.dispatch_char(c)
    }

    /// Runs one character through the transition of the current state.
    fn dispatch_char(&mut self, c: char) -> (r: Option<Result<Token, Error>>)
        requires
            old(self)@.pushback is None,
        ensures
            ({
                let step = spec_dispatch(old(self)@.state, old(self)@.skip_errors, c);
                &&& final(self)@ == (LexerModel {
                    state: step.state,
                    pushback: step.pushback,
                    ..old(self)@
                })
                &&& out_matches(r, spec_step_result(step.out, old(self)@.row, old(self)@.col, c))
            }),
    {
        match self.st {
            State::Normal => self.normal(c),
            State::TagOpened => self.tag_opened(c),
            State::CommentOrCDataOrDoctypeStarted => self.comment_or_cdata_or_doctype_started(c),
            State::CommentStarted => self.comment_started(c),
            State::CDataStarted(s) => self.cdata_started(c, s),
            State::DoctypeStarted(s) => self.doctype_started(c, s),
            State::ProcessingInstructionClosing => self.processing_instruction_closing(c),
            State::EmptyTagClosing => self.empty_element_closing(c),
            State::CommentClosing(s) => self.comment_closing(c, s),
            State::CDataClosing(s) => self.cdata_closing(c, s),
        }
    }

    /// Moves to a new state without producing a token.
    fn move_to(&mut self, st: State) -> (r: Option<Result<Token, Error>>)
        ensures
            final(self)@ == (LexerModel { state: st, ..old(self)@ }),
            r is None,
    {
        self.st = st;
        None
    }

    /// Moves to a new state and produces a token.
    fn move_to_with(&mut self, st: State, token: Token) -> (r: Option<Result<Token, Error>>)
        ensures
            final(self)@ == (LexerModel { state: st, ..old(self)@ }),
            r == Some(Result::<Token, Error>::Ok(token)),
    {
        self.st = st;
        Some(Ok(token))
    }

    /// Moves to a new state, produces a token, and re-queues `c`, which
    /// belongs to the next token.
    fn move_to_with_unread(&mut self, st: State, c: char, token: Token) -> (r: Option<
        Result<Token, Error>,
    >)
        ensures
            final(self)@ == (LexerModel { state: st, pushback: Some(c), ..old(self)@ }),
            r == Some(Result::<Token, Error>::Ok(token)),
    {
        self.temp_char = Some(c);
        self.move_to_with(st, token)
    }

    /// Handles a character that does not continue the expected fixed
    /// sequence: in lenient mode the accumulated fragment comes back as a
    /// `Chunk` and lexing resumes from `c`; in strict mode an error is
    /// reported and the state is left as it was, with `c` left pending.
    fn handle_error(&mut self, chunk: &'static str, c: char) -> (r: Option<Result<Token, Error>>)
        ensures
            ({
                let step = step_mismatch(old(self)@.state, old(self)@.skip_errors, chunk, c);
                &&& final(self)@ == (LexerModel {
                    state: step.state,
                    pushback: step.pushback,
                    ..old(self)@
                })
                &&& out_matches(r, spec_step_result(step.out, old(self)@.row, old(self)@.col, c))
            }),
    {
        self.temp_char = Some(c);
        if self.skip_errors {
            self.move_to_with(State::Normal, Token::Chunk(chunk))
        } else {
            let clen = chunk.unicode_len();
            let col = if self.col > clen {
                self.col - clen - 1
            } else {
                0
            };
            let mut msg = "Unexpected token ".to_owned();
            msg.append(chunk);
            msg.append(" before ");
            push_char(&mut msg, c);
            Some(Err(Error::new_full(self.row, col, msg)))
        }
    }

    /// Encountered a char in the default state.
    fn normal(&mut self, c: char) -> (r: Option<Result<Token, Error>>)
        requires
            old(self)@.pushback is None,
            old(self)@.state is Normal,
        ensures
            ({
                let step = spec_normal(c);
                &&& final(self)@ == (LexerModel {
                    state: step.state,
                    pushback: step.pushback,
                    ..old(self)@
                })
                &&& out_matches(r, spec_step_result(step.out, old(self)@.row, old(self)@.col, c))
            }),
    {
        if c == '<' {
            self.move_to(State::TagOpened)
        } else if c == '>' {
            Some(Ok(Token::TagEnd))
        } else if c == '/' {
            self.move_to(State::EmptyTagClosing)
        } else if c == '=' {
            Some(Ok(Token::EqualsSign))
        } else if c == '"' {
            Some(Ok(Token::DoubleQuote))
        } else if c == '\'' {
            Some(Ok(Token::SingleQuote))
        } else if c == '?' {
            self.move_to(State::ProcessingInstructionClosing)
        } else if c == '-' {
            self.move_to(State::CommentClosing(ClosingSubstate::First))
        } else if c == ']' {
            self.move_to(State::CDataClosing(ClosingSubstate::First))
        } else if c == '&' {
            Some(Ok(Token::ReferenceStart))
        } else if c == ';' {
            Some(Ok(Token::ReferenceEnd))
        } else if is_whitespace_char(c) {
            Some(Ok(Token::Whitespace(c)))
        } else {
            Some(Ok(Token::Character(c)))
        }
    }

    /// Encountered `<`.
    fn tag_opened(&mut self, c: char) -> (r: Option<Result<Token, Error>>)
        requires
            old(self)@.pushback is None,
            old(self)@.state is TagOpened,
        ensures
            ({
                let step = spec_tag_opened(old(self)@.skip_errors, c);
                &&& final(self)@ == (LexerModel {
                    state: step.state,
                    pushback: step.pushback,
                    ..old(self)@
                })
                &&& out_matches(r, spec_step_result(step.out, old(self)@.row, old(self)@.col, c))
            }),
    {
        if c == '?' {
            self.move_to_with(State::Normal, Token::ProcessingInstructionStart)
        } else if c == '/' {
            self.move_to_with(State::Normal, Token::ClosingTagStart)
        } else if c == '!' {
            self.move_to(State::CommentOrCDataOrDoctypeStarted)
        } else if is_whitespace_char(c) || is_name_char(c) {
            self.move_to_with_unread(State::Normal, c, Token::OpeningTagStart)
        } else {
            self.handle_error("<", c)
        }
    }

    /// Encountered `<!`.
    fn comment_or_cdata_or_doctype_started(&mut self, c: char) -> (r: Option<Result<Token, Error>>)
        requires
            old(self)@.pushback is None,
            old(self)@.state is CommentOrCDataOrDoctypeStarted,
        ensures
            ({
                let step = spec_comment_or_cdata_or_doctype_started(old(self)@.skip_errors, c);
                &&& final(self)@ == (LexerModel {
                    state: step.state,
                    pushback: step.pushback,
                    ..old(self)@
                })
                &&& out_matches(r, spec_step_result(step.out, old(self)@.row, old(self)@.col, c))
            }),
    {
        if c == '-' {
            self.move_to(State::CommentStarted)
        } else if c == '[' {
            self.move_to(State::CDataStarted(CDataStartedSubstate::E))
        } else if c == 'D' {
            self.move_to(State::DoctypeStarted(DoctypeStartedSubstate::D))
        } else {
            self.handle_error("<!", c)
        }
    }

    /// Encountered `<!-`.
    fn comment_started(&mut self, c: char) -> (r: Option<Result<Token, Error>>)
        requires
            old(self)@.pushback is None,
            old(self)@.state is CommentStarted,
        ensures
            ({
                let step = spec_comment_started(old(self)@.skip_errors, c);
                &&& final(self)@ == (LexerModel {
                    state: step.state,
                    pushback: step.pushback,
                    ..old(self)@
                })
                &&& out_matches(r, spec_step_result(step.out, old(self)@.row, old(self)@.col, c))
            }),
    {
        if c == '-' {
            self.move_to_with(State::Normal, Token::CommentStart)
        } else {
            self.handle_error("<!-", c)
        }
    }

    /// Encountered `<![` up to `<![CDATA`.
    fn cdata_started(&mut self, c: char, s: CDataStartedSubstate) -> (r: Option<
        Result<Token, Error>,
    >)
        requires
            old(self)@.pushback is None,
            old(self)@.state == State::CDataStarted(s),
        ensures
            ({
                let step = spec_cdata_started(old(self)@.skip_errors, s, c);
                &&& final(self)@ == (LexerModel {
                    state: step.state,
                    pushback: step.pushback,
                    ..old(self)@
                })
                &&& out_matches(r, spec_step_result(step.out, old(self)@.row, old(self)@.col, c))
            }),
    {
        match s {
            CDataStartedSubstate::E => if c == 'C' {
                self.move_to(State::CDataStarted(CDataStartedSubstate::C))
            } else {
                self.handle_error("<![", c)
            },
            CDataStartedSubstate::C => if c == 'D' {
                self.move_to(State::CDataStarted(CDataStartedSubstate::CD))
            } else {
                self.handle_error("<![C", c)
            },
            CDataStartedSubstate::CD => if c == 'A' {
                self.move_to(State::CDataStarted(CDataStartedSubstate::CDA))
            } else {
                self.handle_error("<![CD", c)
            },
            CDataStartedSubstate::CDA => if c == 'T' {
                self.move_to(State::CDataStarted(CDataStartedSubstate::CDAT))
            } else {
                self.handle_error("<![CDA", c)
            },
            CDataStartedSubstate::CDAT => if c == 'A' {
                self.move_to(State::CDataStarted(CDataStartedSubstate::CDATA))
            } else {
                self.handle_error("<![CDAT", c)
            },
            CDataStartedSubstate::CDATA => if c == '[' {
                self.move_to_with(State::Normal, Token::CDataStart)
            } else {
                self.handle_error("<![CDATA", c)
            },
        }
    }

    /// Encountered `<!D` up to `<!DOCTYP`.
    fn doctype_started(&mut self, c: char, s: DoctypeStartedSubstate) -> (r: Option<
        Result<Token, Error>,
    >)
        requires
            old(self)@.pushback is None,
            old(self)@.state == State::DoctypeStarted(s),
        ensures
            ({
                let step = spec_doctype_started(old(self)@.skip_errors, s, c);
                &&& final(self)@ == (LexerModel {
                    state: step.state,
                    pushback: step.pushback,
                    ..old(self)@
                })
                &&& out_matches(r, spec_step_result(step.out, old(self)@.row, old(self)@.col, c))
            }),
    {
        match s {
            DoctypeStartedSubstate::D => if c == 'O' {
                self.move_to(State::DoctypeStarted(DoctypeStartedSubstate::DO))
            } else {
                self.handle_error("<!D", c)
            },
            DoctypeStartedSubstate::DO => if c == 'C' {
                self.move_to(State::DoctypeStarted(DoctypeStartedSubstate::DOC))
            } else {
                self.handle_error("<!DO", c)
            },
            DoctypeStartedSubstate::DOC => if c == 'T' {
                self.move_to(State::DoctypeStarted(DoctypeStartedSubstate::DOCT))
            } else {
                self.handle_error("<!DOC", c)
            },
            DoctypeStartedSubstate::DOCT => if c == 'Y' {
                self.move_to(State::DoctypeStarted(DoctypeStartedSubstate::DOCTY))
            } else {
                self.handle_error("<!DOCT", c)
            },
            DoctypeStartedSubstate::DOCTY => if c == 'P' {
                self.move_to(State::DoctypeStarted(DoctypeStartedSubstate::DOCTYP))
            } else {
                self.handle_error("<!DOCTY", c)
            },
            DoctypeStartedSubstate::DOCTYP => if c == 'E' {
                self.move_to_with(State::Normal, Token::DoctypeStart)
            } else {
                self.handle_error("<!DOCTYP", c)
            },
        }
    }

    /// Encountered `?`.
    fn processing_instruction_closing(&mut self, c: char) -> (r: Option<Result<Token, Error>>)
        requires
            old(self)@.pushback is None,
            old(self)@.state is ProcessingInstructionClosing,
        ensures
            ({
                let step = spec_processing_instruction_closing(c);
                &&& final(self)@ == (LexerModel {
                    state: step.state,
                    pushback: step.pushback,
                    ..old(self)@
                })
                &&& out_matches(r, spec_step_result(step.out, old(self)@.row, old(self)@.col, c))
            }),
    {
        if c == '>' {
            self.move_to_with(State::Normal, Token::ProcessingInstructionEnd)
        } else {
            self.move_to_with_unread(State::Normal, c, Token::Character('?'))
        }
    }

    /// Encountered `/`.
    fn empty_element_closing(&mut self, c: char) -> (r: Option<Result<Token, Error>>)
        requires
            old(self)@.pushback is None,
            old(self)@.state is EmptyTagClosing,
        ensures
            ({
                let step = spec_empty_element_closing(c);
                &&& final(self)@ == (LexerModel {
                    state: step.state,
                    pushback: step.pushback,
                    ..old(self)@
                })
                &&& out_matches(r, spec_step_result(step.out, old(self)@.row, old(self)@.col, c))
            }),
    {
        if c == '>' {
            self.move_to_with(State::Normal, Token::EmptyTagEnd)
        } else {
            self.move_to_with_unread(State::Normal, c, Token::Character('/'))
        }
    }

    /// Encountered `-`.
    fn comment_closing(&mut self, c: char, s: ClosingSubstate) -> (r: Option<Result<Token, Error>>)
        requires
            old(self)@.pushback is None,
            old(self)@.state == State::CommentClosing(s),
        ensures
            ({
                let step = spec_comment_closing(s, c);
                &&& final(self)@ == (LexerModel {
                    state: step.state,
                    pushback: step.pushback,
                    ..old(self)@
                })
                &&& out_matches(r, spec_step_result(step.out, old(self)@.row, old(self)@.col, c))
            }),
    {
        match s {
            ClosingSubstate::First => if c == '-' {
                self.move_to(State::CommentClosing(ClosingSubstate::Second))
            } else {
                self.move_to_with_unread(State::Normal, c, Token::Character('-'))
            },
            ClosingSubstate::Second => if c == '>' {
                self.move_to_with(State::Normal, Token::CommentEnd)
            } else {
                self.move_to_with_unread(State::Normal, c, Token::Chunk("--"))
            },
        }
    }

    /// Encountered `]`.
    fn cdata_closing(&mut self, c: char, s: ClosingSubstate) -> (r: Option<Result<Token, Error>>)
        requires
            old(self)@.pushback is None,
            old(self)@.state == State::CDataClosing(s),
        ensures
            ({
                let step = spec_cdata_closing(s, c);
                &&& final(self)@ == (LexerModel {
                    state: step.state,
                    pushback: step.pushback,
                    ..old(self)@
                })
                &&& out_matches(r, spec_step_result(step.out, old(self)@.row, old(self)@.col, c))
            }),
    {
        match s {
            ClosingSubstate::First => if c == ']' {
                self.move_to(State::CDataClosing(ClosingSubstate::Second))
            } else {
                self.move_to_with_unread(State::Normal, c, Token::Character(']'))
            },
            ClosingSubstate::Second => if c == '>' {
                self.move_to_with(State::Normal, Token::CDataEnd)
            } else {
                self.move_to_with_unread(State::Normal, c, Token::Chunk("]]"))
            },
        }
    }
}

} // verus!
