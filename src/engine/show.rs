//! The `show` sink.
use vstd::prelude::*;
use crate::engine::{Context, evaluated, check_rules};
use crate::text::render;
use crate::verbs::Verb;

verus! {

/// Evaluates `show`: takes the plan and renders all of its rows.
pub fn eval(ctx: &mut Context) -> (r: Result<(), crate::verbs::VerbError>)
    requires
        old(ctx).wf(),
    ensures
        evaluated(Verb::Show, true, *old(ctx), *final(ctx), r),
{
    let v = Verb::Show;
    check_rules(&v, ctx)?;
    let t = ctx.take_plan().unwrap();
    let text = render(&t, t.rows.len());
    let ghost before = ctx.output@;
    ctx.output.push(text);
    assert(ctx.output@.subrange(0, before.len() as int) =~= before);
    Ok(())
}

} // verus!
