//! The command-line grammar, which clap holds: the declarations under which
//! the registry assembles it. The grammar's type is clap's `App`, which clap
//! also calls `Command`.

use vstd::prelude::*;

verus! {

#[verifier::external_type_specification]
#[verifier::external_body]
pub struct ExGrammar<'help>(clap::App<'help>);

/// The name of a grammar.
pub uninterp spec fn grammar_name(g: clap::App<'static>) -> Seq<char>;

/// The text that a grammar shows after its help, if it has one.
pub uninterp spec fn grammar_after_help(g: clap::App<'static>) -> Option<Seq<char>>;

/// The subcommands of a grammar in the order in which they were added, each
/// by its name and the text after its help.
pub uninterp spec fn grammar_subcommands(g: clap::App<'static>) -> Seq<
    (Seq<char>, Option<Seq<char>>),
>;

/// `clap::App::new`: a grammar of the given name, with no text after its
/// help and no subcommand.
#[verifier::external_body]
pub(crate) fn grammar_new(name: &'static str) -> (g: clap::App<'static>)
    ensures
        grammar_name(g) == name@,
        grammar_after_help(g) is None,
        grammar_subcommands(g) == Seq::<(Seq<char>, Option<Seq<char>>)>::empty(),
{
    clap::App::new(name)
}

/// `clap::App::after_help`: the same grammar, with `help` as the text
/// after its help.
#[verifier::external_body]
pub(crate) fn with_after_help(g: clap::App<'static>, help: &'static str) -> (r: clap::App<
    'static,
>)
    ensures
        grammar_name(r) == grammar_name(g),
        grammar_after_help(r) == Some(help@),
        grammar_subcommands(r) == grammar_subcommands(g),
{
    g.after_help(help)
}

/// `clap::App::subcommand`: the same grammar, with `sub` added behind
/// the subcommands that it has.
#[verifier::external_body]
pub(crate) fn with_subcommand(g: clap::App<'static>, sub: clap::App<'static>) -> (r:
    clap::App<'static>)
    ensures
        grammar_name(r) == grammar_name(g),
        grammar_after_help(r) == grammar_after_help(g),
        grammar_subcommands(r) == grammar_subcommands(g).push(
            (grammar_name(sub), grammar_after_help(sub)),
        ),
{
    g.subcommand(sub)
}

} // verus!
