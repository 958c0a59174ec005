//! `head`: a row limit inside a chain, a sink at its end.
use vstd::prelude::*;
use crate::engine::{Context, evaluated, check_rules, limit};
use crate::text::render;
use crate::verbs::{DEFAULT_HEAD_ROWS, Verb, VerbError};

verus! {

/// Evaluates `head(n)`. With a verb after it, it cuts the plan to its first
/// `n` rows; as the last verb, it takes the plan and renders its first `n`
/// rows. `n` is ten when not given.
pub fn eval(n: Option<usize>, last: bool, ctx: &mut Context) -> (r: Result<(), VerbError>)
    requires
        old(ctx).wf(),
    ensures
        evaluated(Verb::Head(n), last, *old(ctx), *final(ctx), r),
{
    let v = Verb::Head(n);
    check_rules(&v, ctx)?;
    let rows = match n {
        Some(k) => k,
        None => DEFAULT_HEAD_ROWS,
    };
    let t = ctx.take_plan().unwrap();
    if last {
        let text = render(&t, rows);
        let ghost before = ctx.output@;
        ctx.output.push(text);
        assert(ctx.output@.subrange(0, before.len() as int) =~= before);
    } else {
        ctx.plan = Some(limit(t, rows));
    }
    Ok(())
}

} // verus!
