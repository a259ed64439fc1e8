//! Laws of the lexer's token stream, stated over the mathematical model
//! of [`crate::reader::lexer`] and proved once and for all: plain text
//! lexes to itself, exhaustion is idempotent, an incomplete markup prefix
//! at end of stream is a fatal error, and lenient lexing never drops
//! characters.

use crate::common::spec_is_whitespace_char;
use crate::common::ErrorModel;
use crate::reader::lexer::spec_dispatch;
use crate::reader::lexer::spec_initial;
use crate::reader::lexer::spec_next_token;
use crate::reader::lexer::spec_read_next_token;
use crate::reader::lexer::spec_render;
use crate::reader::lexer::spec_run;
use crate::reader::lexer::CDataStartedSubstate;
use crate::reader::lexer::ClosingSubstate;
use crate::reader::lexer::DoctypeStartedSubstate;
use crate::reader::lexer::DriveResult;
use crate::reader::lexer::LexerModel;
use crate::reader::lexer::StepOut;
use crate::reader::lexer::State;
use crate::reader::lexer::Token;
use vstd::prelude::*;

verus! {

/// The lexer at `lx`, reading from `input`, responds to successive token
/// requests with exactly the elements of `outs` and then reports
/// exhaustion.
pub open spec fn lex_outputs(
    lx: LexerModel,
    input: Seq<char>,
    outs: Seq<Result<Token, ErrorModel>>,
) -> bool
    decreases outs.len(),
{
    let d = spec_next_token(lx, input);
    if outs.len() == 0 {
        d.out is None
    } else {
        d.out == Some(outs[0]) && lex_outputs(d.lexer, d.rest, outs.skip(1))
    }
}

/// A lexer that has reported exhaustion keeps reporting it: once the
/// end-of-stream flag is set, a token request returns `None` and changes
/// neither the lexer nor the input.
pub proof fn lemma_exhaustion_idempotent(lx: LexerModel, input: Seq<char>)
    requires
        lx.eof_handled,
    ensures
        spec_next_token(lx, input) == (DriveResult { lexer: lx, rest: input, out: None }),
{
}

/// Exhaustion is only ever reported by a lexer whose end-of-stream flag
/// is set afterwards, so by [`lemma_exhaustion_idempotent`] every further
/// request keeps reporting exhaustion without mutating anything.
pub proof fn lemma_exhaustion_sticks(lx: LexerModel, input: Seq<char>)
    ensures
        spec_next_token(lx, input).out is None ==> spec_next_token(lx, input).lexer.eof_handled,
{
    if !lx.eof_handled {
        match lx.pushback {
            Some(c) => {
                let step = spec_read_next_token(LexerModel { pushback: None, ..lx }, c);
                if step.out is None {
                    lemma_run_none_means_eof(step.lexer, input);
                }
            },
            None => {
                lemma_run_none_means_eof(lx, input);
            },
        }
    }
}

/// Whether `c` drives the state machine out of `Normal` or is emitted as
/// a markup token of its own: the characters with a dedicated transition
/// in the `Normal` state.
pub open spec fn spec_is_special_char(c: char) -> bool {
    ||| c == '<'
    ||| c == '>'
    ||| c == '/'
    ||| c == '='
    ||| c == '"'
    ||| c == '\''
    ||| c == '?'
    ||| c == '-'
    ||| c == ']'
    ||| c == '&'
    ||| c == ';'
}

/// The token that a plain (non-special) character lexes to.
pub open spec fn spec_plain_token(c: char) -> Token {
    if spec_is_whitespace_char(c) {
        Token::Whitespace(c)
    } else {
        Token::Character(c)
    }
}

/// The concatenated canonical text of a response sequence; an error
/// contributes no text.
pub open spec fn spec_rendered_all(outs: Seq<Result<Token, ErrorModel>>) -> Seq<char>
    decreases outs.len(),
{
    if outs.len() == 0 {
        Seq::empty()
    } else {
        (match outs[0] {
            Ok(t) => spec_render(t),
            Err(_) => Seq::<char>::empty(),
        }) + spec_rendered_all(outs.skip(1))
    }
}

/// Plain text lexes to itself: when no character of the input is special,
/// a lexer in the `Normal` state emits each character in source order as
/// `Character` or `Whitespace`, then reports exhaustion; concatenating
/// the tokens' text reconstructs the input.  Either error mode and any
/// starting position will do.
pub proof fn lemma_plain_text(lx: LexerModel, input: Seq<char>)
    requires
        lx.state is Normal,
        lx.pushback is None,
        !lx.eof_handled,
        forall|i: int| 0 <= i < input.len() ==> !spec_is_special_char(#[trigger] input[i]),
    ensures
        lex_outputs(lx, input, Seq::new(input.len(), |i: int| Ok(spec_plain_token(input[i])))),
        spec_rendered_all(Seq::new(input.len(), |i: int| Ok(spec_plain_token(input[i]))))
            =~= input,
    decreases input.len(),
{
    let outs = Seq::new(input.len(), |i: int| Ok::<Token, ErrorModel>(spec_plain_token(input[i])));
    if input.len() == 0 {
        assert(lex_outputs(lx, input, outs));
        assert(spec_rendered_all(outs) =~= input);
    } else {
        let c = input[0];
        let d = spec_next_token(lx, input);
        let lx2 = d.lexer;
        assert(d.out == Some(outs[0]));
        assert(lx2.state is Normal && lx2.pushback is None && !lx2.eof_handled);
        assert(d.rest == input.skip(1));
        lemma_plain_text(lx2, input.skip(1));
        let outs2 = Seq::new(
            input.skip(1).len(),
            |i: int| Ok::<Token, ErrorModel>(spec_plain_token(input.skip(1)[i])),
        );
        assert(outs.skip(1) =~= outs2);
        assert(spec_rendered_all(outs) =~= spec_render(spec_plain_token(c)) + spec_rendered_all(
            outs2,
        ));
        assert(spec_rendered_all(outs) =~= input);
    }
}

/// The text that the lexer's state still owes to the output: the prefix
/// of a multi-character sequence consumed so far but not yet resolved
/// into a token.
pub open spec fn spec_pending_text(st: State) -> Seq<char> {
    match st {
        State::Normal => Seq::empty(),
        State::TagOpened => seq!['<'],
        State::CommentOrCDataOrDoctypeStarted => seq!['<', '!'],
        State::CommentStarted => seq!['<', '!', '-'],
        State::DoctypeStarted(s) => match s {
            DoctypeStartedSubstate::D => seq!['<', '!', 'D'],
            DoctypeStartedSubstate::DO => seq!['<', '!', 'D', 'O'],
            DoctypeStartedSubstate::DOC => seq!['<', '!', 'D', 'O', 'C'],
            DoctypeStartedSubstate::DOCT => seq!['<', '!', 'D', 'O', 'C', 'T'],
            DoctypeStartedSubstate::DOCTY => seq!['<', '!', 'D', 'O', 'C', 'T', 'Y'],
            DoctypeStartedSubstate::DOCTYP => seq!['<', '!', 'D', 'O', 'C', 'T', 'Y', 'P'],
        },
        State::CDataStarted(s) => match s {
            CDataStartedSubstate::E => seq!['<', '!', '['],
            CDataStartedSubstate::C => seq!['<', '!', '[', 'C'],
            CDataStartedSubstate::CD => seq!['<', '!', '[', 'C', 'D'],
            CDataStartedSubstate::CDA => seq!['<', '!', '[', 'C', 'D', 'A'],
            CDataStartedSubstate::CDAT => seq!['<', '!', '[', 'C', 'D', 'A', 'T'],
            CDataStartedSubstate::CDATA => seq!['<', '!', '[', 'C', 'D', 'A', 'T', 'A'],
        },
        State::ProcessingInstructionClosing => seq!['?'],
        State::EmptyTagClosing => seq!['/'],
        State::CommentClosing(s) => match s {
            ClosingSubstate::First => seq!['-'],
            ClosingSubstate::Second => seq!['-', '-'],
        },
        State::CDataClosing(s) => match s {
            ClosingSubstate::First => seq![']'],
            ClosingSubstate::Second => seq![']', ']'],
        },
    }
}

/// The text held in the pushback slot.
pub open spec fn spec_pushback_text(p: Option<char>) -> Seq<char> {
    match p {
        Some(c) => seq![c],
        None => Seq::empty(),
    }
}

/// All text the lexer has consumed but not yet turned into tokens.  A
/// finalized lexer owes nothing: its remaining state is never resolved.
pub open spec fn spec_owed_text(lx: LexerModel) -> Seq<char> {
    if lx.eof_handled {
        Seq::empty()
    } else {
        spec_pending_text(lx.state) + spec_pushback_text(lx.pushback)
    }
}

/// The text a single response contributes to the rendered output.
pub open spec fn spec_out_render(out: Option<Result<Token, ErrorModel>>) -> Seq<char> {
    match out {
        Some(Ok(t)) => spec_render(t),
        Some(Err(_)) => Seq::empty(),
        None => Seq::empty(),
    }
}

/// One lenient transition is lossless: the text pending before the step
/// plus the consumed character equals the text of whatever token was
/// emitted plus the text pending and pushed back afterwards; and a
/// lenient transition never produces a mismatch.
spec fn step_lossless_ok(st: State, c: char) -> bool {
    let step = spec_dispatch(st, true, c);
    &&& spec_pending_text(st) + seq![c] =~= (match step.out {
        Some(StepOut::Tok(t)) => spec_render(t),
        _ => Seq::<char>::empty(),
    }) + spec_pending_text(step.state) + spec_pushback_text(step.pushback)
    &&& !(step.out matches Some(StepOut::Mismatch(_)))
}

/// Every lenient transition satisfies [`step_lossless_ok`].
#[verifier::rlimit(100)]
#[verifier::spinoff_prover]
proof fn lemma_step_lossless(st: State, c: char)
    ensures
        step_lossless_ok(st, c),
{
    match st {
        State::Normal => {
            assert(step_lossless_ok(st, c));
        },
        State::TagOpened => {
            reveal_strlit("<");
            assert(step_lossless_ok(st, c));
        },
        State::CommentOrCDataOrDoctypeStarted => {
            reveal_strlit("<!");
            assert(step_lossless_ok(st, c));
        },
        State::CommentStarted => {
            reveal_strlit("<!-");
            assert(step_lossless_ok(st, c));
        },
        State::CDataStarted(s) => {
            match s {
                CDataStartedSubstate::E => {
                    reveal_strlit("<![");
                    assert(step_lossless_ok(st, c));
                },
                CDataStartedSubstate::C => {
                    reveal_strlit("<![C");
                    assert(step_lossless_ok(st, c));
                },
                CDataStartedSubstate::CD => {
                    reveal_strlit("<![CD");
                    assert(step_lossless_ok(st, c));
                },
                CDataStartedSubstate::CDA => {
                    reveal_strlit("<![CDA");
                    assert(step_lossless_ok(st, c));
                },
                CDataStartedSubstate::CDAT => {
                    reveal_strlit("<![CDAT");
                    assert(step_lossless_ok(st, c));
                },
                CDataStartedSubstate::CDATA => {
                    reveal_strlit("<![CDATA");
                    assert(step_lossless_ok(st, c));
                },
            }
        },
        State::DoctypeStarted(s) => {
            match s {
                DoctypeStartedSubstate::D => {
                    reveal_strlit("<!D");
                    assert(step_lossless_ok(st, c));
                },
                DoctypeStartedSubstate::DO => {
                    reveal_strlit("<!DO");
                    assert(step_lossless_ok(st, c));
                },
                DoctypeStartedSubstate::DOC => {
                    reveal_strlit("<!DOC");
                    assert(step_lossless_ok(st, c));
                },
                DoctypeStartedSubstate::DOCT => {
                    reveal_strlit("<!DOCT");
                    assert(step_lossless_ok(st, c));
                },
                DoctypeStartedSubstate::DOCTY => {
                    reveal_strlit("<!DOCTY");
                    assert(step_lossless_ok(st, c));
                },
                DoctypeStartedSubstate::DOCTYP => {
                    reveal_strlit("<!DOCTYP");
                    assert(step_lossless_ok(st, c));
                },
            }
        },
        State::ProcessingInstructionClosing => {
            assert(step_lossless_ok(st, c));
        },
        State::EmptyTagClosing => {
            assert(step_lossless_ok(st, c));
        },
        State::CommentClosing(s) => {
            reveal_strlit("--");
            assert(step_lossless_ok(st, c));
        },
        State::CDataClosing(s) => {
            reveal_strlit("]]");
            assert(step_lossless_ok(st, c));
        },
    }
}

/// One request against a lenient lexer is lossless, unless it reports a
/// fatal end-of-stream error (in which case the pending prefix has no
/// valid interpretation and is dropped with the error).
pub proof fn lemma_next_token_lossless(lx: LexerModel, input: Seq<char>)
    requires
        lx.skip_errors,
    ensures
        ({
            let d = spec_next_token(lx, input);
            &&& d.lexer.skip_errors
            &&& !(d.out matches Some(Err(_))) ==> spec_owed_text(lx) + input
                =~= spec_out_render(d.out) + spec_owed_text(d.lexer) + d.rest
        }),
{
    let d = spec_next_token(lx, input);
    if !lx.eof_handled {
        match lx.pushback {
            Some(c) => {
                let lx1 = LexerModel { pushback: None, ..lx };
                let step = spec_read_next_token(lx1, c);
                lemma_step_lossless(lx.state, c);
                match step.out {
                    Some(o) => {},
                    None => {
                        lemma_run_lossless(step.lexer, input);
                    },
                }
            },
            None => {
                lemma_run_lossless(lx, input);
            },
        }
    }
}

/// Lossless consumption within one request: characters are pulled from
/// the input until a token is produced or the input runs out.
proof fn lemma_run_lossless(lx: LexerModel, input: Seq<char>)
    requires
        lx.skip_errors,
        !lx.eof_handled,
        lx.pushback is None,
    ensures
        ({
            let d = spec_run(lx, input);
            &&& d.lexer.skip_errors
            &&& !(d.out matches Some(Err(_))) ==> spec_pending_text(lx.state) + input
                =~= spec_out_render(d.out) + spec_owed_text(d.lexer) + d.rest
        }),
    decreases input.len(),
{
    let d = spec_run(lx, input);
    if input.len() == 0 {
        reveal_strlit("]]");
    } else {
        let c = input[0];
        let step = spec_read_next_token(lx, c);
        lemma_step_lossless(lx.state, c);
        match step.out {
            Some(o) => {
                assert(input =~= seq![c] + input.skip(1));
            },
            None => {
                lemma_run_lossless(step.lexer, input.skip(1));
                assert(input =~= seq![c] + input.skip(1));
            },
        }
    }
}

/// Within one request, a `None` response arises only from end-of-stream
/// finalization, which sets the flag.
proof fn lemma_run_none_means_eof(lx: LexerModel, input: Seq<char>)
    ensures
        spec_run(lx, input).out is None ==> spec_run(lx, input).lexer.eof_handled,
    decreases input.len(),
{
    if input.len() > 0 {
        let step = spec_read_next_token(lx, input[0]);
        if step.out is None {
            lemma_run_none_means_eof(step.lexer, input.skip(1));
        }
    }
}

/// Within one request, whenever finalization sets the end-of-stream flag
/// the whole input has been consumed.
proof fn lemma_run_eof_rest(lx: LexerModel, input: Seq<char>)
    requires
        !lx.eof_handled,
    ensures
        ({
            let d = spec_run(lx, input);
            d.lexer.eof_handled ==> d.rest.len() == 0
        }),
    decreases input.len(),
{
    if input.len() > 0 {
        let step = spec_read_next_token(lx, input[0]);
        if step.out is None {
            lemma_run_eof_rest(step.lexer, input.skip(1));
        }
    }
}

/// A request that finalizes the stream leaves no input unconsumed.
proof fn lemma_eof_rest(lx: LexerModel, input: Seq<char>)
    requires
        !lx.eof_handled,
    ensures
        ({
            let d = spec_next_token(lx, input);
            d.lexer.eof_handled ==> d.rest.len() == 0
        }),
{
    match lx.pushback {
        Some(c) => {
            let step = spec_read_next_token(LexerModel { pushback: None, ..lx }, c);
            if step.out is None {
                lemma_run_eof_rest(step.lexer, input);
            }
        },
        None => {
            lemma_run_eof_rest(lx, input);
        },
    }
}

/// Lenient lexing is lossless: when a lexer in lenient mode answers a
/// whole run of requests without an error, the concatenated text of the
/// tokens it produced is exactly the text it still owed plus the input it
/// consumed.  (An exhausted lexer owes nothing, and can only be handed an
/// already-empty input.)
pub proof fn lemma_lenient_lossless(
    lx: LexerModel,
    input: Seq<char>,
    outs: Seq<Result<Token, ErrorModel>>,
)
    requires
        lx.skip_errors,
        lx.eof_handled ==> input.len() == 0,
        lex_outputs(lx, input, outs),
        forall|i: int| 0 <= i < outs.len() ==> #[trigger] outs[i] is Ok,
    ensures
        spec_rendered_all(outs) =~= spec_owed_text(lx) + input,
    decreases outs.len(),
{
    let d = spec_next_token(lx, input);
    lemma_next_token_lossless(lx, input);
    if outs.len() == 0 {
        lemma_exhaustion_sticks(lx, input);
        if !lx.eof_handled {
            lemma_eof_rest(lx, input);
        }
        assert(spec_owed_text(d.lexer) =~= Seq::<char>::empty());
        assert(spec_owed_text(lx) + input =~= Seq::<char>::empty());
    } else {
        assert(outs[0] is Ok);
        if !lx.eof_handled {
            lemma_eof_rest(lx, input);
        }
        assert(forall|i: int|
            0 <= i < outs.skip(1).len() ==> #[trigger] outs.skip(1)[i] is Ok);
        lemma_lenient_lossless(d.lexer, d.rest, outs.skip(1));
        assert(spec_rendered_all(outs) =~= spec_render(outs[0]->Ok_0) + spec_rendered_all(
            outs.skip(1),
        ));
    }
}

/// The incomplete markup prefixes that have no valid shorter
/// interpretation when the input ends after them: `<`, `<!`, `<!-`, and
/// every longer proper prefix of `<![CDATA[` or `<!DOCTYPE`.
pub open spec fn spec_is_incomplete_markup_prefix(p: Seq<char>) -> bool {
    ||| p == seq!['<']
    ||| p == seq!['<', '!']
    ||| p == seq!['<', '!', '-']
    ||| p == seq!['<', '!', '[']
    ||| p == seq!['<', '!', '[', 'C']
    ||| p == seq!['<', '!', '[', 'C', 'D']
    ||| p == seq!['<', '!', '[', 'C', 'D', 'A']
    ||| p == seq!['<', '!', '[', 'C', 'D', 'A', 'T']
    ||| p == seq!['<', '!', '[', 'C', 'D', 'A', 'T', 'A']
    ||| p == seq!['<', '!', 'D']
    ||| p == seq!['<', '!', 'D', 'O']
    ||| p == seq!['<', '!', 'D', 'O', 'C']
    ||| p == seq!['<', '!', 'D', 'O', 'C', 'T']
    ||| p == seq!['<', '!', 'D', 'O', 'C', 'T', 'Y']
    ||| p == seq!['<', '!', 'D', 'O', 'C', 'T', 'Y', 'P']
}

/// An input that is exactly an incomplete markup prefix yields one fatal
/// end-of-stream error at row zero and a column equal to the consumed
/// prefix's length, then exhaustion — in either error mode, since the
/// lenient chunk conversion does not apply at end of stream.
#[verifier::rlimit(100)]
#[verifier::spinoff_prover]
pub proof fn lemma_incomplete_prefix_eof(skip_errors: bool, p: Seq<char>)
    requires
        spec_is_incomplete_markup_prefix(p),
    ensures
        lex_outputs(
            LexerModel { skip_errors, ..spec_initial() },
            p,
            seq![
                Err(ErrorModel { row: 0, col: p.len(), msg: "Unexpected end of stream"@ }),
            ],
        ),
{
    let lx = LexerModel { skip_errors, ..spec_initial() };
    let outs = seq![
        Err::<Token, ErrorModel>(
            ErrorModel { row: 0, col: p.len(), msg: "Unexpected end of stream"@ },
        ),
    ];
    reveal_with_fuel(spec_run, 10);
    reveal_with_fuel(lex_outputs, 3);
    let d = spec_next_token(lx, p);
    assert(outs.skip(1) =~= Seq::<Result<Token, ErrorModel>>::empty());
    assert(d.out == Some(outs[0]) && d.lexer.eof_handled) by {
        reveal_with_fuel(spec_run, 10);
    }
}

/// Round trip: concatenating the canonical text of every token produced
/// by lenient-mode lexing of an input reproduces that input exactly,
/// provided the run ends in exhaustion rather than in a fatal
/// end-of-stream error.  Lenient mode never drops characters.
pub proof fn lemma_lenient_round_trip(input: Seq<char>, outs: Seq<Result<Token, ErrorModel>>)
    requires
        lex_outputs(LexerModel { skip_errors: true, ..spec_initial() }, input, outs),
        forall|i: int| 0 <= i < outs.len() ==> #[trigger] outs[i] is Ok,
    ensures
        spec_rendered_all(outs) =~= input,
{
    let lx = LexerModel { skip_errors: true, ..spec_initial() };
    lemma_lenient_lossless(lx, input, outs);
    assert(spec_owed_text(lx) + input =~= input);
}

} // verus!
