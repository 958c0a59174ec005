//! Runs a chain of verbs: the static check first, then evaluation.
use vstd::prelude::*;
use crate::engine::{Context, effect, evaluate};
use crate::typing::pipeline;
use crate::verbs::{ErrorKind, Verb, VerbError, VerbName, chain_from, check_chain};

verus! {

/// Every table that a source verb hands in has one cell per column in each row.
pub open spec fn chain_wf(chain: Seq<Verb>) -> bool {
    forall|k: int| 0 <= k < chain.len() ==> (#[trigger] chain[k] matches Verb::Source(t) ==> t.wf())
}

/// `states` is a trace of the first `n` verbs: each verb takes the state
/// before it to the state after it with its effect.
pub open spec fn steps(chain: Seq<Verb>, states: Seq<Context>, n: int) -> bool {
    &&& states.len() == n + 1
    &&& forall|k: int|
        #![trigger states[k]]
        0 <= k < n ==> effect(chain[k], k + 1 == chain.len(), states[k], states[k + 1])
}

/// Evaluating the whole chain takes state `c` to state `out`, each verb
/// having its effect.
pub open spec fn runs(chain: Seq<Verb>, c: Context, out: Context) -> bool {
    exists|states: Seq<Context>|
        #[trigger] steps(chain, states, chain.len() as int) && states[0] == c && states.last() == out
}

/// A state with no plan, no grouping and nothing rendered.
pub open spec fn fresh(c: Context) -> bool {
    c.plan is None && !c.grouping && c.output@.len() == 0
}

/// Evaluates the verbs in order on `ctx`, stopping at the first error. From
/// a fresh state it fails exactly where the static check fails.
pub fn run(chain: &Vec<Verb>, ctx: &mut Context) -> (r: Result<(), VerbError>)
    requires
        chain_wf(chain@),
        old(ctx).plan is None,
        !old(ctx).grouping,
    ensures
        r == check_chain(chain@),
        r is Ok ==> runs(chain@, *old(ctx), *final(ctx)),
{
    let ghost mut states: Seq<Context> = seq![*ctx];
    let mut k: usize = 0;
    while k < chain.len()
        invariant
            chain_wf(chain@),
            k <= chain@.len(),
            ctx.wf(),
            check_chain(chain@) == chain_from(chain@, k as int, ctx.schema(), ctx.grouping),
            steps(chain@, states, k as int),
            states[0] == *old(ctx),
            states[k as int] == *ctx,
        decreases chain@.len() - k,
    {
        let last = k + 1 == chain.len();
        if let Err(e) = evaluate(&chain[k], last, ctx) {
            return Err(e);
        }
        proof {
            let prev = states;
            states = states.push(*ctx);
            assert forall|i: int|
                #![trigger states[i]]
                0 <= i < k + 1 implies effect(chain@[i], i + 1 == chain@.len(), states[i], states[i + 1]) by {
                if i < k {
                    assert(states[i] == prev[i] && states[i + 1] == prev[i + 1]);
                }
            }
        }
        k = k + 1;
    }
    assert(steps(chain@, states, chain@.len() as int));
    if ctx.grouping {
        return Err(VerbError { verb: VerbName::GroupBy, kind: ErrorKind::MustSummarize });
    }
    Ok(())
}

/// Checks the chain, then evaluates it; returns what its sinks rendered, in
/// order. A chain that the check rejects renders nothing.
pub fn eval(chain: &Vec<Verb>) -> (r: Result<Vec<String>, VerbError>)
    requires
        chain_wf(chain@),
    ensures
        r is Ok <==> check_chain(chain@) is Ok,
        r matches Err(e) ==> check_chain(chain@) == Err::<(), VerbError>(e),
        r matches Ok(o) ==> exists|c: Context, out: Context| fresh(c) && runs(chain@, c, out) && o@ == out.output@,
{
    pipeline(chain)?;
    let mut ctx = Context::new();
    let ghost c = ctx;
    match run(chain, &mut ctx) {
        Ok(()) => {
            assert(fresh(c) && runs(chain@, c, ctx));
            Ok(ctx.output)
        },
        Err(e) => Err(e),
    }
}

} // verus!
