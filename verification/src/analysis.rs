//! A whole analysis of a Jay source text: its tokens listed, then the
//! program parsed and run.
use vstd::prelude::*;

use crate::grammar::{generate_tokens, jay_grammar, lemma_h_is_a_letter};
use crate::lexer::{
    kept_count, law_source_tokens_well_formed, lex_source, source_lines, token_views,
    well_formed_token, Lexer, Token, TokenView,
};
use crate::parse_spec::{
    all_fit, debug_listing, fits, panics, initial_state, listing, sp_run, token_fit, wf, Outcome,
    PState,
};
use crate::parser::{ParseFailure, Parser};
use crate::string_table::StringTable;
use crate::text::{chars_of, push_char, split_lines, trim_chars, vec_views};

verus! {

/// The tokens of a source text, by Jay's grammar.
pub open spec fn source_tokens(content: Seq<char>) -> Seq<TokenView> {
    lex_source(jay_grammar(), content)
}

/// The run of the program of a source text: parsed and run, and, if that
/// succeeds, the tokens left unread shown.
pub open spec fn source_run(content: Seq<char>) -> (PState, Outcome) {
    let (s, r) = sp_run(initial_state(jay_grammar(), source_tokens(content)));
    match r {
        Ok(_) => (PState { output: s.output + debug_listing(s.tokens), ..s }, r),
        Err(_) => (s, r),
    }
}

/// The run of the program of a source text ends in a panic.
pub open spec fn run_panics(content: Seq<char>) -> bool {
    panics(sp_run(initial_state(jay_grammar(), source_tokens(content))).1)
}

/// What `supported_source` checks: fewer lines carrying code than the
/// largest line number.
pub open spec fn supported(content: Seq<char>) -> bool {
    kept_count(source_lines(content)) < u32::MAX
}

/// What an analysis produced: the text written to standard output, the
/// failure that stopped it if one did, and the tokens left unread.
pub struct Analysis {
    pub output: String,
    pub failure: Option<ParseFailure>,
    pub remaining: Vec<Token>,
}

/// Whether a source text meets `supported`.
pub fn supported_source(file_content: &String) -> (r: bool)
    ensures
        r == supported(file_content@),
{
    let content = chars_of(file_content.as_str());
    let trimmed = trim_chars(&content);
    let all_lines = split_lines(&trimmed);
    let ghost ls = vec_views(all_lines@);
    let mut count: usize = 0;
    let mut i: usize = 0;
    assert(ls.skip(0) =~= ls);
    while i < all_lines.len()
        invariant
            i <= all_lines.len(),
            count <= i,
            ls == vec_views(all_lines@),
            ls == source_lines(file_content@),
            count + kept_count(ls.skip(i as int)) == kept_count(ls),
        decreases all_lines.len() - i,
    {
        assert(ls.skip(i as int).drop_first() =~= ls.skip(i + 1));
        assert(ls.skip(i as int)[0] == all_lines@[i as int]@);
        let line = trim_chars(&all_lines[i]);
        if !(line.len() >= 2 && line[0] == '/' && line[1] == '/') && line.len() > 0 {
            count += 1;
        }
        i += 1;
    }
    count < 4294967295usize
}

/// The lexer's tokens of a source text are tokens the parser can handle.
pub proof fn law_lexer_output_fits_parser(content: Seq<char>)
    requires
        kept_count(source_lines(content)) < u32::MAX,
    ensures
        all_fit(jay_grammar(), source_tokens(content)),
        wf(initial_state(jay_grammar(), source_tokens(content))),
        fits(initial_state(jay_grammar(), source_tokens(content))),
{
    law_source_tokens_well_formed(jay_grammar(), content);
    lemma_h_is_a_letter();
    let ts = source_tokens(content);
    assert forall|i: int| 0 <= i < ts.len() implies token_fit(jay_grammar(), #[trigger] ts[i]) by {
        assert(well_formed_token(ts[i]));
    }
    let s = initial_state(jay_grammar(), ts);
    assert(crate::text::spaced(s.terms) =~= s.expression);
}

/// Analyses a source text: lists its tokens, each followed by a space, then
/// parses and runs its program with Jay's grammar. The run never panics.
#[verifier::rlimit(40)]
pub fn read_file(file_content: &String) -> (r: Analysis)
    requires
        kept_count(source_lines(file_content@)) < u32::MAX,
    ensures
        !run_panics(file_content@),
        r.output@ == listing(source_tokens(file_content@)) + source_run(file_content@).0.output,
        token_views(r.remaining@) == source_run(file_content@).0.tokens,
        r.failure is None <==> source_run(file_content@).1 is Ok,
        r.failure matches Some(f) ==> source_run(file_content@).1 == Err::<bool, crate::parse_spec::FailureView>(f@),
{
    let tokens = generate_tokens();
    let lexer = Lexer::build(&tokens);
    let mut output = String::new();
    match lexer.read_file_lines(file_content) {
        Ok(value) => {
            let ghost ts = token_views(value@);
            let mut i: usize = 0;
            assert(ts.take(0) =~= Seq::<TokenView>::empty());
            assert(output@ =~= listing(ts.take(0)));
            while i < value.len()
                invariant
                    i <= value.len(),
                    ts == token_views(value@),
                    output@ == listing(ts.take(i as int)),
                decreases value.len() - i,
            {
                assert(ts.take(i + 1).drop_last() =~= ts.take(i as int));
                assert(ts.take(i + 1).last() == ts[i as int]);
                let v = value[i].get_value();
                output.append(v.as_str());
                push_char(&mut output, ' ');
                i += 1;
                assert(output@ =~= listing(ts.take(i as int)));
            }
            assert(ts.take(value.len() as int) =~= ts);
            let mut parser = Parser::build(&tokens, &value);
            proof {
                law_lexer_output_fits_parser(file_content@);
            }
            let res = parser.run();
            if res.is_ok() {
                parser.show();
            }
            output.append(parser.output.as_str());
            let failure = match res {
                Ok(_) => None,
                Err(e) => Some(e),
            };
            Analysis { output, failure, remaining: parser.file_tokens }
        },
        Err(_) => Analysis { output, failure: None, remaining: Vec::new() },
    }
}

} // verus!
