pub mod builtin_commands;
pub mod command_handler;
pub mod config;
pub mod executor;
pub mod history;
pub mod lexer;
pub mod parse;
pub mod quotes;
pub mod text;
pub mod utils;

use vstd::prelude::*;

verus! {

/// Pushing onto a container commutes with taking the sequence of element
/// models.
pub proof fn lemma_deep_view_push<T: DeepView>(v: Seq<T>, t: T)
    ensures
        Seq::new(v.push(t).len(), |i: int| v.push(t)[i].deep_view()) == Seq::new(
            v.len(),
            |i: int| v[i].deep_view(),
        ).push(t.deep_view()),
{
    assert(Seq::new(v.push(t).len(), |i: int| v.push(t)[i].deep_view()) =~= Seq::new(
        v.len(),
        |i: int| v[i].deep_view(),
    ).push(t.deep_view()));
}

} // verus!
