//! The whole pipeline, from source text to assembly text.
use vstd::prelude::*;
use crate::emit::code_emission;
use crate::error::Error;
use crate::frame::asm_gen;
use crate::lexer::{lex_from, lexer, tokens_view, Token, TokenView};
use crate::names::NameGen;
use crate::parser::{parser, parses};
use crate::semantic::{semantic_analysis, semantic_error};
use crate::ast::Program;
use crate::tacky::program_lowerable;
use crate::tacky::{tac_function, tacky_gen};
use crate::codegen::asm_of_all;
use crate::emit::program_text;
use crate::frame::frame_body;

verus! {

/// Compiles the text of one C function to x86-64 assembly in AT&T syntax.
/// A lexer error comes exactly where `lex_from` fails, a parser error
/// exactly when the tokens are not one function, a semantic error exactly
/// as `semantic_error` finds it; otherwise the text is that of the
/// three-address code of the validated program, built, given stack slots,
/// legalized and printed.
pub fn compile(source: &str, macos: bool) -> (r: Result<String, Error>)
    ensures
        r matches Err(e) ==> e is Lexer || e is Parser || e is Semantic || e is TooLarge,
        lex_from(source@, 0) matches Err(ch) ==> r matches Err(Error::Lexer { ch: c }) && c == ch,
        r matches Err(Error::Lexer { .. }) ==> lex_from(source@, 0) is Err,
        r matches Err(Error::Parser { .. }) ==> exists|toks: Seq<Token>| lex_from(source@, 0) == Ok::<Seq<TokenView>, char>(tokens_view(toks))
            && !#[trigger] parses(toks),
        r matches Err(Error::Semantic(e)) ==> exists|toks: Seq<Token>, p: Program| {
            &&& lex_from(source@, 0) == Ok::<Seq<TokenView>, char>(tokens_view(toks))
            &&& #[trigger] parses(toks) && toks[1] == Token::Identifier(p.function.name)
            &&& #[trigger] semantic_error(p.function.body.items@, p.function.name@, 0) == Some(e)
        },
        r matches Ok(t) ==> exists|toks: Seq<Token>, p: Program, q: Program, n: nat| {
            &&& lex_from(source@, 0) == Ok::<Seq<TokenView>, char>(tokens_view(toks))
            &&& #[trigger] parses(toks) && toks[1] == Token::Identifier(p.function.name)
            &&& semantic_error(p.function.body.items@, p.function.name@, 0) is None
            &&& program_lowerable(q) && q.function.name@ == p.function.name@
            &&& t@ == #[trigger] program_text(p.function.name@, frame_body(asm_of_all(tac_function(q.function, n).0)), macos)
        },
{
    let toks = lexer(source)?;
    let ast = match parser(&toks) {
        Ok(a) => a,
        Err(e) => {
            assert(!parses(toks@));
            return Err(e);
        },
    };
    let ghost p = ast;
    let mut gen = NameGen::new();
    let valid = match semantic_analysis(ast, &mut gen) {
        Ok(v) => v,
        Err(e) => {
            assert(parses(toks@));
            return Err(e);
        },
    };
    let ghost q = valid;
    let ghost n = gen.next as nat;
    let r = compile_validated(valid, &mut gen, macos);
    if let Ok(t) = &r {
        assert(program_text(p.function.name@, frame_body(asm_of_all(tac_function(q.function, n).0)), macos) == t@);
        assert(parses(toks@));
    }
    r
}

/// The back end: three-address code, x86 instructions, stack frame and text.
pub fn compile_validated(p: crate::ast::Program, gen: &mut NameGen, macos: bool) -> (r: Result<String, Error>)
    requires
        crate::tacky::program_lowerable(p),
    ensures
        r matches Err(e) ==> e is TooLarge,
        r is Ok <==> ({
            let (tac, n1) = tac_function(p.function, old(gen).next as nat);
            n1 <= u64::MAX && asm_of_all(tac).len() <= crate::frame::MAX_INSTRUCTIONS
        }),
        r matches Ok(t) ==> {
            let tac = tac_function(p.function, old(gen).next as nat).0;
            t@ == program_text(p.function.name@, frame_body(asm_of_all(tac)), macos)
        },
{
    let ghost name = p.function.name@;
    let ghost tac = tac_function(p.function, old(gen).next as nat).0;
    let t = tacky_gen(p, gen)?;
    let framed = match asm_gen(&t) {
        Some(f) => f,
        None => { return Err(Error::TooLarge); },
    };
    proof {
        crate::laws::lemma_framed_body_has_no_pseudo(asm_of_all(tac));
        assert(framed.body_view() == frame_body(asm_of_all(tac)));
    }
    match code_emission(&framed, macos) {
        Some(text) => Ok(text),
        None => Err(Error::CodeEmission),
    }
}

} // verus!
