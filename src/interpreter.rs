//! One run of the front end on a program: scan, parse, print the tree,
//! evaluate, and collect the lines to show.

use vstd::prelude::*;
use crate::evaluate::{eval_spec, value_text, Evaluator, NumberDomain};
use crate::lox_error::{message_of, ErrorView, LoxErrorList};
use crate::parser::{lemma_parse_result_evaluable, numeral_tokens, parse_rule, well_terminated, Parser};
use crate::printer::{render, AstPrinter};
use crate::scanner::{describes, error_outs, last_line, lex_from, token_outs, Scanner};
use crate::token::Token;

verus! {

/// The lines of a report: one rendered message per diagnostic, in order.
pub open spec fn messages(errors: Seq<ErrorView>) -> Seq<Seq<char>> {
    errors.map_values(|e: ErrorView| message_of(e))
}

/// The text of each line.
pub open spec fn texts(lines: Seq<String>) -> Seq<Seq<char>> {
    lines.map_values(|s: String| s@)
}

/// `lines` is the report for the token sequence `toks`: the syntax
/// diagnostics when there are any; otherwise the tree's rendering followed
/// by the value's text, or by the evaluation's diagnostic.
pub open spec fn reports_tokens<N: NumberDomain>(toks: Seq<Token>, lines: Seq<Seq<char>>) -> bool {
    let p = parse_rule(toks, 0, 0);
    if p.errors.len() > 0 {
        lines == messages(p.errors)
    } else {
        &&& lines.len() == 2
        &&& lines[0] == render(p.expr)
        &&& match eval_spec::<N>(p.expr) {
            Err(e) => lines[1] == message_of(e),
            Ok(v) => lines[1] == value_text(v),
        }
    }
}

/// `toks` is what scanning `program` from its start gives: a token for each
/// token lexeme, then the end-of-input marker on the last line.
pub open spec fn scanned(program: Seq<char>, toks: Seq<Token>) -> bool {
    let outs = token_outs(lex_from(program, 0, 1));
    &&& toks.len() == outs.len() + 1
    &&& forall|k: int| 0 <= k < outs.len() ==> describes(#[trigger] toks[k], outs[k])
    &&& toks.last().ttype is Eof
    &&& toks.last().lexeme@ == Seq::<char>::empty()
    &&& toks.last().line == last_line(program, 0, 1)
}

/// The lines to show for a token sequence.
pub fn run_tokens<N: NumberDomain>(tokens: Vec<Token>) -> (r: Vec<String>)
    requires
        well_terminated(tokens@),
        numeral_tokens(tokens@),
    ensures
        reports_tokens::<N>(tokens@, texts(r@)),
{
    proof {
        lemma_parse_result_evaluable(tokens@);
    }
    let mut parser = Parser::new(tokens);
    let parsed = parser.parse();
    match parsed {
        None => {
            let lines = parser.get_errors().report();
            proof {
                assert(texts(lines@) =~= messages(parser.diagnostics()));
            }
            lines
        },
        Some(tree) => {
            let mut lines: Vec<String> = Vec::new();
            lines.push(AstPrinter {}.pretty_print_value(&tree));
            let (value, errors) = Evaluator {}.interpret::<N>(&tree);
            match value {
                Some(text) => lines.push(text),
                None => {
                    let mut reported = errors.report();
                    lines.append(&mut reported);
                },
            }
            assert(texts(lines@) =~= seq![lines@[0]@, lines@[1]@]);
            lines
        },
    }
}

/// The lines to show for a program: the scanner's diagnostics when it
/// reports any (a program that is not ASCII is one), and otherwise the
/// report for the tokens it read.
pub fn run<N: NumberDomain>(program: &String) -> (r: Vec<String>)
    ensures
        !program.is_ascii() ==> texts(r@) == seq!["Program should be in ascii"@],
        program.is_ascii() ==> ({
            let errors = error_outs(lex_from(program@, 0, 1));
            if errors.len() > 0 {
                texts(r@) == messages(errors)
            } else {
                exists|toks: Seq<Token>|
                    scanned(program@, toks) && well_terminated(toks) && numeral_tokens(toks)
                        && #[trigger] reports_tokens::<N>(toks, texts(r@))
            }
        }),
{
    let mut scanner = match Scanner::new(program) {
        Ok(s) => s,
        Err(e) => {
            let lines = LoxErrorList::single(e).report();
            proof {
                assert(texts(lines@) =~= seq!["Program should be in ascii"@]);
            }
            return lines;
        },
    };
    scanner.scan_tokens();
    let errors = scanner.get_errors();
    if errors.len() > 0 {
        let lines = errors.report();
        proof {
            assert(messages(errors@) =~= texts(lines@));
        }
        return lines;
    }
    let tokens = scanner.get_tokens().clone();
    proof {
        assert(scanner.token_list().subrange(0, 0) =~= Seq::<Token>::empty());
        assert(errors@ =~= error_outs(lex_from(program@, 0, 1)));
        assert forall|k: int| 0 <= k < token_outs(lex_from(program@, 0, 1)).len() implies describes(
            #[trigger] tokens@[k],
            token_outs(lex_from(program@, 0, 1))[k],
        ) by {
            assert(tokens@[k] == scanner.token_list()[0 + k]);
        }
        assert(scanned(program@, tokens@));
    }
    run_tokens::<N>(tokens)
}

} // verus!
