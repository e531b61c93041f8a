//! The reformatting collaborator: parse a source text and print it back in
//! canonical form.  The parser and printer live in outside crates; this
//! module names what they compute and wraps the calls the walker makes.
//!
//! The printer aborts on what it does not support: an `unimplemented!`
//! fallback at every verbatim position — constructs the parser accepts but
//! keeps only as raw tokens — and one in its `macro_rules` printer for a
//! rules body that strays from the matcher-arrow-expander shape.  The
//! trusted boundary therefore screens the parsed file before printing and
//! reports a failure instead: [`parse_and_screen`] refuses verbatim nodes,
//! and [`rules_shapes_ok`] with its helpers walks the file's tokens and
//! re-runs the very state machine the printer runs on every named
//! `macro_rules` body.  Both screens err only toward rejection, so what the
//! pipeline accepts it prints.

use vstd::prelude::*;

verus! {

/// Whether the reformatting pipeline accepts a text: it parses as a source
/// file under `syn::parse_file` and passes both screens below — no
/// verbatim node in its tree, no `macro_rules` body off the
/// matcher-arrow-expander shape, with the screens' conservative edges
/// included (each errs only toward rejection).  The name means exactly
/// this acceptance, a function of the text alone.
pub uninterp spec fn parses(s: Seq<char>) -> bool;

/// The canonical form that `prettyplease::unparse` prints for a text the
/// pipeline accepts.  A function of the text alone.
pub uninterp spec fn pretty_of(s: Seq<char>) -> Seq<char>;

/// The pipeline's description of why it rejects a text: the parser's error
/// message, or the note that the tree holds an unprintable construct.  A
/// function of the text alone.
pub uninterp spec fn parse_error_of(s: Seq<char>) -> Seq<char>;

/// A text is canonical when the pipeline accepts it and printing it
/// canonically gives the text back unchanged.
pub open spec fn canonical(s: Seq<char>) -> bool {
    parses(s) && pretty_of(s) == s
}

#[verifier::external_type_specification]
#[verifier::external_body]
pub struct ExTokenStream(proc_macro2::TokenStream);

#[verifier::external_type_specification]
#[verifier::external_body]
pub struct ExTokenTree(proc_macro2::TokenTree);

/// Relies on `syn::parse_file`: parses the text, refuses a tree holding any
/// verbatim node, and hands the file's tokens on (via `quote::ToTokens`).
/// Verbatim nodes are judged on the tree's debug rendering, where only
/// verbatim variants (and a string literal spelling the same text) render
/// as `Verbatim(`.
#[verifier::external_body]
fn parse_and_screen(text: &str) -> (r: Result<proc_macro2::TokenStream, String>)
{
    match syn::parse_file(text) {
        Ok(ast) => {
            if format!("{:?}", ast).contains("Verbatim(") {
                Err(String::from("unsupported construct kept verbatim by the parser"))
            } else {
                Ok(quote::ToTokens::to_token_stream(&ast))
            }
        },
        Err(err) => Err(err.to_string()),
    }
}

/// Whether three adjacent tokens read `macro_rules`, `!`, and a name: the
/// header that routes the following group into the printer's `macro_rules`
/// printer.
#[verifier::external_body]
fn is_rules_header(
    a: &proc_macro2::TokenTree,
    b: &proc_macro2::TokenTree,
    c: &proc_macro2::TokenTree,
) -> (r: bool)
{
    if let proc_macro2::TokenTree::Ident(head) = a {
        if let proc_macro2::TokenTree::Punct(bang) = b {
            if let proc_macro2::TokenTree::Ident(_name) = c {
                return head.to_string() == "macro_rules" && bang.as_char() == '!';
            }
        }
    }
    false
}

/// Classifies one token of a rules body for the shape check: a group, the
/// joint `=` and alone `>` of an arrow, an alone `;`, or anything else.
#[verifier::external_body]
fn rule_token_tag(tt: &proc_macro2::TokenTree) -> (r: u8)
{
    match tt {
        proc_macro2::TokenTree::Group(_g) => 0,
        proc_macro2::TokenTree::Punct(p) => {
            let joint = p.spacing() == proc_macro2::Spacing::Joint;
            if p.as_char() == '=' && joint { 1 }
            else if p.as_char() == '>' && !joint { 2 }
            else if p.as_char() == ';' && !joint { 3 }
            else { 4 }
        },
        _ => 4,
    }
}

/// Whether one `macro_rules` body follows the matcher-arrow-expander shape
/// the printer demands: the state machine of `prettyplease`'s `macro_rules`
/// printer, with rejection in place of its abort.
#[verifier::external_body]
fn rule_body_ok(body: proc_macro2::TokenStream) -> (r: bool)
{
    let mut state: u8 = 0;
    for tt in body.into_iter() {
        let tag = rule_token_tag(&tt);
        if state == 0 && tag == 0 { state = 1; }
        else if state == 1 && tag == 1 { state = 2; }
        else if state == 2 && tag == 2 { state = 3; }
        else if state == 3 && tag == 0 { state = 4; }
        else if state == 4 && tag == 3 { state = 0; }
        else { return false; }
    }
    true
}

/// Whether every named `macro_rules` body in the token stream, at any
/// nesting depth, follows the shape the printer demands.  This also reaches
/// rules-shaped token runs inside other macro invocations, which the
/// printer would pass through: the screen errs only toward rejection.
#[verifier::external_body]
fn rules_shapes_ok(root: proc_macro2::TokenStream) -> (r: bool)
{
    let mut queue: Vec<proc_macro2::TokenStream> = vec![root];
    while !queue.is_empty() {
        let trees: Vec<proc_macro2::TokenTree> = queue.pop().unwrap().into_iter().collect();
        let mut i: usize = 0;
        while i < trees.len() {
            if let proc_macro2::TokenTree::Group(g) = &trees[i] {
                queue.push(g.stream());
                let header = i >= 3 && is_rules_header(&trees[i - 3], &trees[i - 2], &trees[i - 1]);
                if header && !rule_body_ok(g.stream()) { return false; }
            }
            i += 1;
        }
    }
    true
}

/// Relies on `syn::parse_file` and `prettyplease::unparse`, both
/// deterministic functions of the text alone, screened by the checks
/// above so the printer is reached only with trees it supports.  The
/// clause that the printed form is itself accepted and prints back to
/// itself is the printer's design — canonical output for a syntax tree,
/// reparsed to the same tree — not a sentence of its documentation; the
/// idempotence the walker promises rests on it.
#[verifier::external_body]
pub(crate) fn reformat(text: &str) -> (r: Result<String, String>)
    ensures
        r is Ok <==> parses(text@),
        r matches Ok(out) ==> out@ == pretty_of(text@) && canonical(pretty_of(text@)),
        r matches Err(e) ==> e@ == parse_error_of(text@),
{
    match parse_and_screen(text) {
        Ok(tokens) => {
            if rules_shapes_ok(tokens) {
                Ok(prettyplease::unparse(&syn::parse_file(text).unwrap()))
            } else {
                Err(String::from("malformed macro_rules definition"))
            }
        },
        Err(err) => Err(err),
    }
}

} // verus!
