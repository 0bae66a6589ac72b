//! The groundedness (provenance) analyzer.
//!
//! A variable is *provided* when a search pattern outputs it or a
//! constant binding establishes it. Aggregates both consume their
//! operands and provide their result variable: each aggregate's inputs
//! are checked before its result joins the provided set, in block
//! order, so an aggregate may feed a later one but not an earlier one.
//! Every remaining consumer occurrence (update targets, lookup keys,
//! function-call arguments) is then checked against the full provided
//! set; grounding is set membership, not execution order, so forward
//! references are legal. Each ungrounded occurrence yields one
//! `Unprovided` diagnostic carrying that occurrence's own span.

use vstd::prelude::*;
use crate::block::{Aggregate, Block, FunctionCall, Lookup, ParamUse, SearchClause, UpdateClause,
    VarUse};
use crate::error::{CompileError, Error};

verus! {

/// Some element of `s` views to the name `n`.
pub open spec fn seq_has_name(s: Seq<String>, n: Seq<char>) -> bool {
    exists|i: int| 0 <= i < s.len() && s[i]@ == n
}

/// Every output variable of every search pattern, in block order.
pub open spec fn search_outputs(b: Block) -> Seq<String> {
    b.searches@.map_values(|c: SearchClause| c.outputs@).flatten()
}

/// The names provided before any aggregate is processed: search
/// outputs and left-hand sides of constant binds.
pub open spec fn provided_names(b: Block) -> Seq<String> {
    search_outputs(b) + b.constant_binds@
}

/// The result variables of the block's aggregates, in block order.
pub open spec fn aggregate_results(b: Block) -> Seq<String> {
    b.aggregates@.map_values(|a: Aggregate| a.result)
}

/// The names provided once the first `stage` aggregates have been
/// processed.
pub open spec fn staged_names(b: Block, stage: int) -> Seq<String> {
    provided_names(b) + aggregate_results(b).take(stage)
}

/// `n` is provided by a search output or a constant bind.
pub open spec fn is_provided_base(b: Block, n: Seq<char>) -> bool {
    seq_has_name(provided_names(b), n)
}

/// `n` is provided once the first `stage` aggregates have been
/// processed.
pub open spec fn is_provided_at(b: Block, stage: int, n: Seq<char>) -> bool {
    seq_has_name(staged_names(b, stage), n)
}

/// Pairs each occurrence with the stage its check runs at.
pub open spec fn stage_uses(uses: Seq<VarUse>, stage: int) -> Seq<(VarUse, int)> {
    uses.map_values(|u: VarUse| (u, stage))
}

/// The variable occurrences among a call's arguments, in call order;
/// parameters given a literal contribute none.
pub open spec fn call_arg_vars(ps: Seq<ParamUse>) -> Seq<VarUse>
    decreases ps.len(),
{
    if ps.len() == 0 {
        Seq::empty()
    } else {
        let rest = call_arg_vars(ps.drop_first());
        match ps[0].arg {
            Option::Some(v) => seq![v] + rest,
            Option::None => rest,
        }
    }
}

/// Every consumer occurrence checked after the aggregates: update
/// clauses, then lookup keys, then function-call arguments.
pub open spec fn consumed_after(b: Block) -> Seq<VarUse> {
    b.updates@.map_values(|u: UpdateClause| u.consumed@).flatten()
        + b.lookups@.map_values(|l: Lookup| l.keys@).flatten()
        + b.calls@.map_values(|c: FunctionCall| call_arg_vars(c.params@)).flatten()
}

/// Each aggregate's inputs (`from` operands, then `for` operands),
/// staged at that aggregate's own index.
pub open spec fn aggregate_staged(b: Block) -> Seq<(VarUse, int)> {
    b.aggregates@.map(|i: int, a: Aggregate| stage_uses(a.from_vars@ + a.for_vars@, i)).flatten()
}

/// Every checked occurrence with its stage, in detection order.
pub open spec fn staged_uses(b: Block) -> Seq<(VarUse, int)> {
    aggregate_staged(b) + stage_uses(consumed_after(b), b.aggregates@.len() as int)
}

/// The diagnostic for one ungrounded occurrence.
pub open spec fn unprovided_diag(u: VarUse) -> CompileError {
    CompileError { span: u.span, error: Error::Unprovided(u.name) }
}

/// The diagnostics the analyzer emits for the staged occurrences `st`,
/// in order: one `Unprovided` per occurrence not provided at its stage.
pub open spec fn groundedness_diags_from(b: Block, st: Seq<(VarUse, int)>) -> Seq<CompileError>
    decreases st.len(),
{
    if st.len() == 0 {
        Seq::empty()
    } else {
        let head = if !is_provided_at(b, st[0].1, st[0].0.name@) {
            seq![unprovided_diag(st[0].0)]
        } else {
            Seq::empty()
        };
        head + groundedness_diags_from(b, st.drop_first())
    }
}

/// The diagnostics the analyzer emits for a block.
pub open spec fn groundedness_diags(b: Block) -> Seq<CompileError> {
    groundedness_diags_from(b, staged_uses(b))
}

proof fn lemma_gdf_concat(b: Block, s1: Seq<(VarUse, int)>, s2: Seq<(VarUse, int)>)
    ensures
        groundedness_diags_from(b, s1 + s2) == groundedness_diags_from(b, s1)
            + groundedness_diags_from(b, s2),
    decreases s1.len(),
{
    if s1.len() == 0 {
        assert(s1 + s2 =~= s2);
        assert(groundedness_diags_from(b, s1) + groundedness_diags_from(b, s2)
            =~= groundedness_diags_from(b, s2));
    } else {
        lemma_gdf_concat(b, s1.drop_first(), s2);
        assert((s1 + s2).drop_first() =~= s1.drop_first() + s2);
        assert((s1 + s2)[0] == s1[0]);
        let h = if !is_provided_at(b, s1[0].1, s1[0].0.name@) {
            seq![unprovided_diag(s1[0].0)]
        } else {
            Seq::<CompileError>::empty()
        };
        assert(groundedness_diags_from(b, s1 + s2) == h + (groundedness_diags_from(
            b,
            s1.drop_first(),
        ) + groundedness_diags_from(b, s2)));
        assert(h + (groundedness_diags_from(b, s1.drop_first()) + groundedness_diags_from(b, s2))
            =~= (h + groundedness_diags_from(b, s1.drop_first())) + groundedness_diags_from(b, s2));
    }
}

/// Appending one staged occurrence appends its diagnostic, if any.
proof fn lemma_gdf_push(b: Block, st: Seq<(VarUse, int)>, u: VarUse, stage: int)
    ensures
        groundedness_diags_from(b, st.push((u, stage))) == groundedness_diags_from(b, st) + (
        if !is_provided_at(b, stage, u.name@) {
            seq![unprovided_diag(u)]
        } else {
            Seq::<CompileError>::empty()
        }),
{
    let single: Seq<(VarUse, int)> = seq![(u, stage)];
    assert(st.push((u, stage)) =~= st + single);
    lemma_gdf_concat(b, st, single);
    assert(single.drop_first() =~= Seq::<(VarUse, int)>::empty());
    assert(groundedness_diags_from(b, single.drop_first()) =~= Seq::<CompileError>::empty());
    assert(groundedness_diags_from(b, single) =~= (
    if !is_provided_at(b, stage, u.name@) {
        seq![unprovided_diag(u)]
    } else {
        Seq::<CompileError>::empty()
    }));
}

proof fn lemma_gdf_all_provided(b: Block, st: Seq<(VarUse, int)>)
    requires
        forall|k: int| #![trigger st[k]] 0 <= k < st.len() ==> is_provided_at(
            b,
            st[k].1,
            st[k].0.name@,
        ),
    ensures
        groundedness_diags_from(b, st) == Seq::<CompileError>::empty(),
    decreases st.len(),
{
    if st.len() > 0 {
        assert(forall|k: int| #![trigger st.drop_first()[k]]
            0 <= k < st.drop_first().len() ==> st.drop_first()[k] == st[k + 1]);
        lemma_gdf_all_provided(b, st.drop_first());
        assert(groundedness_diags_from(b, st) =~= Seq::<CompileError>::empty());
    }
}

proof fn lemma_gdf_single(b: Block, st: Seq<(VarUse, int)>, k0: int)
    requires
        0 <= k0 < st.len(),
        !is_provided_at(b, st[k0].1, st[k0].0.name@),
        forall|k: int| #![trigger st[k]] 0 <= k < st.len() && k != k0 ==> is_provided_at(
            b,
            st[k].1,
            st[k].0.name@,
        ),
    ensures
        groundedness_diags_from(b, st) == seq![unprovided_diag(st[k0].0)],
    decreases st.len(),
{
    assert(forall|k: int| #![trigger st.drop_first()[k]]
        0 <= k < st.drop_first().len() ==> st.drop_first()[k] == st[k + 1]);
    if k0 == 0 {
        lemma_gdf_all_provided(b, st.drop_first());
        assert(groundedness_diags_from(b, st) =~= seq![unprovided_diag(st[0].0)]);
    } else {
        lemma_gdf_single(b, st.drop_first(), k0 - 1);
        assert(st.drop_first()[k0 - 1] == st[k0]);
        assert(groundedness_diags_from(b, st) =~= seq![unprovided_diag(st[k0].0)]);
    }
}

/// Groundedness soundness: in a block where every checked occurrence
/// has a matching search-output or constant-bind name, the analyzer
/// emits no diagnostic at all.
pub proof fn lemma_groundedness_soundness(b: Block)
    requires
        forall|k: int| #![trigger staged_uses(b)[k]] 0 <= k < staged_uses(b).len()
            ==> is_provided_base(b, staged_uses(b)[k].0.name@),
    ensures
        groundedness_diags(b) == Seq::<CompileError>::empty(),
{
    assert forall|k: int| #![trigger staged_uses(b)[k]] 0 <= k < staged_uses(b).len()
        implies is_provided_at(b, staged_uses(b)[k].1, staged_uses(b)[k].0.name@) by {
        let n = staged_uses(b)[k].0.name@;
        let i = choose|i: int| 0 <= i < provided_names(b).len() && provided_names(b)[i]@ == n;
        assert(staged_names(b, staged_uses(b)[k].1)[i]@ == n);
    }
    lemma_gdf_all_provided(b, staged_uses(b));
}

/// Groundedness completeness: in a block where exactly one checked
/// occurrence is unprovided at its stage, the analyzer emits exactly
/// one diagnostic, an `Unprovided` carrying that occurrence's own name
/// and span. (An occurrence whose name only an aggregate result
/// provides is counted as provided here, as the analyzer treats it.)
pub proof fn lemma_groundedness_completeness(b: Block, k0: int)
    requires
        0 <= k0 < staged_uses(b).len(),
        !is_provided_at(b, staged_uses(b)[k0].1, staged_uses(b)[k0].0.name@),
        forall|k: int| #![trigger staged_uses(b)[k]] 0 <= k < staged_uses(b).len() && k != k0
            ==> is_provided_at(b, staged_uses(b)[k].1, staged_uses(b)[k].0.name@),
    ensures
        groundedness_diags(b).len() == 1,
        groundedness_diags(b)[0].span == staged_uses(b)[k0].0.span,
        groundedness_diags(b)[0].error == Error::Unprovided(staged_uses(b)[k0].0.name),
{
    lemma_gdf_single(b, staged_uses(b), k0);
}

proof fn lemma_cav_push(ps: Seq<ParamUse>, p: ParamUse)
    ensures
        call_arg_vars(ps.push(p)) == call_arg_vars(ps) + (match p.arg {
            Option::Some(v) => seq![v],
            Option::None => Seq::<VarUse>::empty(),
        }),
    decreases ps.len(),
{
    if ps.len() == 0 {
        let single = ps.push(p);
        assert(single.drop_first() =~= Seq::<ParamUse>::empty());
        assert(single[0] == p);
        assert(call_arg_vars(single.drop_first()) == Seq::<VarUse>::empty());
        assert(ps =~= Seq::<ParamUse>::empty());
        match p.arg {
            Option::Some(v) => {
                assert(call_arg_vars(single) == seq![v] + call_arg_vars(single.drop_first()));
                assert(call_arg_vars(single) =~= call_arg_vars(ps) + seq![v]);
            }
            Option::None => {
                assert(call_arg_vars(single) == call_arg_vars(single.drop_first()));
                assert(call_arg_vars(single) =~= call_arg_vars(ps) + Seq::<VarUse>::empty());
            }
        }
    } else {
        lemma_cav_push(ps.drop_first(), p);
        assert(ps.push(p).drop_first() =~= ps.drop_first().push(p));
        assert(ps.push(p)[0] == ps[0]);
        let tail = match p.arg {
            Option::Some(v) => seq![v],
            Option::None => Seq::<VarUse>::empty(),
        };
        match ps[0].arg {
            Option::Some(v) => {
                assert(seq![v] + (call_arg_vars(ps.drop_first()) + tail) =~= (seq![v]
                    + call_arg_vars(ps.drop_first())) + tail);
            }
            Option::None => {
            }
        }
    }
}

/// Whether some element of `v` equals the name `n`.
pub fn contains_name(v: &Vec<String>, n: &String) -> (r: bool)
    ensures
        r == seq_has_name(v@, n@),
{
    let mut i: usize = 0;
    while i < v.len()
        invariant
            0 <= i <= v@.len(),
            forall|j: int| 0 <= j < i ==> v@[j]@ != n@,
        decreases v@.len() - i,
    {
        if v[i] == *n {
            assert(v@[i as int]@ == n@);
            return true;
        }
        i = i + 1;
    }
    false
}

/// Collects the names the block provides before any aggregate runs:
/// every search output, then every constant-bind left-hand side.
#[verifier::loop_isolation(false)]
fn seed_provided(b: &Block) -> (v: Vec<String>)
    ensures
        v@ == provided_names(*b),
{
    let ghost m = b.searches@.map_values(|c: SearchClause| c.outputs@);
    let mut provided: Vec<String> = Vec::new();
    let mut i: usize = 0;
    while i < b.searches.len()
        invariant
            0 <= i <= b.searches@.len(),
            provided@ == m.take(i as int).flatten(),
        decreases b.searches@.len() - i,
    {
        let outs = &b.searches[i].outputs;
        let mut j: usize = 0;
        while j < outs.len()
            invariant
                0 <= j <= outs@.len(),
                provided@ == m.take(i as int).flatten() + outs@.take(j as int),
            decreases outs@.len() - j,
        {
            provided.push(outs[j].clone());
            proof {
                assert(outs@.take(j + 1) =~= outs@.take(j as int).push(outs@[j as int]));
                assert(m.take(i as int).flatten() + outs@.take(j + 1) =~= (m.take(
                    i as int,
                ).flatten() + outs@.take(j as int)).push(outs@[j as int]));
            }
            j = j + 1;
        }
        proof {
            assert(outs@.take(outs@.len() as int) =~= outs@);
            assert(m[i as int] == outs@);
            m.take(i as int).lemma_flatten_push(m[i as int]);
            assert(m.take(i + 1) =~= m.take(i as int).push(m[i as int]));
        }
        i = i + 1;
    }
    proof {
        assert(m.take(m.len() as int) =~= m);
        assert(provided@ == search_outputs(*b));
    }
    let mut k: usize = 0;
    while k < b.constant_binds.len()
        invariant
            0 <= k <= b.constant_binds@.len(),
            provided@ == search_outputs(*b) + b.constant_binds@.take(k as int),
        decreases b.constant_binds@.len() - k,
    {
        provided.push(b.constant_binds[k].clone());
        proof {
            assert(b.constant_binds@.take(k + 1) =~= b.constant_binds@.take(k as int).push(
                b.constant_binds@[k as int],
            ));
            assert(search_outputs(*b) + b.constant_binds@.take(k + 1) =~= (search_outputs(*b)
                + b.constant_binds@.take(k as int)).push(b.constant_binds@[k as int]));
        }
        k = k + 1;
    }
    proof {
        assert(b.constant_binds@.take(b.constant_binds@.len() as int) =~= b.constant_binds@);
        assert(provided@ =~= provided_names(*b));
    }
    provided
}

/// Checks one list of occurrences against the provided set as it
/// stands at `stage`, appending one `Unprovided` per miss.
#[verifier::loop_isolation(false)]
fn check_uses(
    b: &Block,
    Ghost(stage): Ghost<int>,
    provided: &Vec<String>,
    uses: &Vec<VarUse>,
    diags: &mut Vec<CompileError>,
)
    requires
        provided@ == staged_names(*b, stage),
    ensures
        final(diags)@ == old(diags)@ + groundedness_diags_from(*b, stage_uses(uses@, stage)),
{
    let mut k: usize = 0;
    while k < uses.len()
        invariant
            0 <= k <= uses@.len(),
            diags@ == old(diags)@ + groundedness_diags_from(
                *b,
                stage_uses(uses@.take(k as int), stage),
            ),
        decreases uses@.len() - k,
    {
        let u = &uses[k];
        let ghost st_prefix = stage_uses(uses@.take(k as int), stage);
        let found = contains_name(provided, &u.name);
        if !found {
            diags.push(CompileError { span: u.span, error: Error::Unprovided(u.name.clone()) });
        }
        proof {
            lemma_gdf_push(*b, st_prefix, uses@[k as int], stage);
            assert(stage_uses(uses@.take(k + 1), stage) =~= st_prefix.push(
                (uses@[k as int], stage),
            ));
            if !found {
                assert(old(diags)@ + groundedness_diags_from(*b, st_prefix) + seq![
                    unprovided_diag(uses@[k as int]),
                ] =~= diags@);
            } else {
                assert(groundedness_diags_from(*b, st_prefix) + Seq::<CompileError>::empty()
                    =~= groundedness_diags_from(*b, st_prefix));
            }
        }
        k = k + 1;
    }
    proof {
        assert(uses@.take(uses@.len() as int) =~= uses@);
    }
}

/// Checks the variable arguments of one call's parameter list against
/// the provided set as it stands at `stage`.
#[verifier::loop_isolation(false)]
fn check_params(
    b: &Block,
    Ghost(stage): Ghost<int>,
    provided: &Vec<String>,
    params: &Vec<ParamUse>,
    diags: &mut Vec<CompileError>,
)
    requires
        provided@ == staged_names(*b, stage),
    ensures
        final(diags)@ == old(diags)@ + groundedness_diags_from(
            *b,
            stage_uses(call_arg_vars(params@), stage),
        ),
{
    let mut k: usize = 0;
    while k < params.len()
        invariant
            0 <= k <= params@.len(),
            diags@ == old(diags)@ + groundedness_diags_from(
                *b,
                stage_uses(call_arg_vars(params@.take(k as int)), stage),
            ),
        decreases params@.len() - k,
    {
        let ghost cav_prefix = call_arg_vars(params@.take(k as int));
        match &params[k].arg {
            Option::Some(u) => {
                let found = contains_name(provided, &u.name);
                if !found {
                    diags.push(
                        CompileError { span: u.span, error: Error::Unprovided(u.name.clone()) },
                    );
                }
                proof {
                    let v = params@[k as int].arg->0;
                    lemma_cav_push(params@.take(k as int), params@[k as int]);
                    assert(params@.take(k + 1) =~= params@.take(k as int).push(
                        params@[k as int],
                    ));
                    assert(call_arg_vars(params@.take(k + 1)) =~= cav_prefix.push(v));
                    lemma_gdf_push(*b, stage_uses(cav_prefix, stage), v, stage);
                    assert(stage_uses(cav_prefix.push(v), stage) =~= stage_uses(
                        cav_prefix,
                        stage,
                    ).push((v, stage)));
                    if !found {
                        assert(old(diags)@ + groundedness_diags_from(
                            *b,
                            stage_uses(cav_prefix, stage),
                        ) + seq![unprovided_diag(v)] =~= diags@);
                    } else {
                        assert(groundedness_diags_from(*b, stage_uses(cav_prefix, stage))
                            + Seq::<CompileError>::empty() =~= groundedness_diags_from(
                            *b,
                            stage_uses(cav_prefix, stage),
                        ));
                    }
                }
            }
            Option::None => {
                proof {
                    lemma_cav_push(params@.take(k as int), params@[k as int]);
                    assert(params@.take(k + 1) =~= params@.take(k as int).push(
                        params@[k as int],
                    ));
                    assert(call_arg_vars(params@.take(k + 1)) =~= cav_prefix
                        + Seq::<VarUse>::empty());
                    assert(call_arg_vars(params@.take(k + 1)) =~= cav_prefix);
                }
            }
        }
        k = k + 1;
    }
    proof {
        assert(params@.take(params@.len() as int) =~= params@);
    }
}

/// Walks one block and returns every `Unprovided` diagnostic, in
/// detection order: each aggregate's inputs (its result then joining
/// the provided set), then update clauses, lookup keys and
/// function-call arguments. The provided set is rebuilt per call and
/// discarded; provenance never crosses block boundaries.
#[verifier::loop_isolation(false)]
pub fn analyze_block(b: &Block) -> (r: Vec<CompileError>)
    ensures
        r@ == groundedness_diags(*b),
{
    let ghost am = b.aggregates@.map(
        |i: int, a: Aggregate| stage_uses(a.from_vars@ + a.for_vars@, i),
    );
    let ghost s_full = b.aggregates@.len() as int;
    let mut provided = seed_provided(b);
    proof {
        assert(aggregate_results(*b).take(0) =~= Seq::<String>::empty());
        assert(provided@ =~= staged_names(*b, 0));
    }
    let mut diags: Vec<CompileError> = Vec::new();
    let mut i: usize = 0;
    while i < b.aggregates.len()
        invariant
            0 <= i <= b.aggregates@.len(),
            provided@ == staged_names(*b, i as int),
            diags@ == groundedness_diags_from(*b, am.take(i as int).flatten()),
        decreases b.aggregates@.len() - i,
    {
        let agg = &b.aggregates[i];
        let ghost inputs = agg.from_vars@ + agg.for_vars@;
        let ghost diags_before = diags@;
        check_uses(b, Ghost(i as int), &provided, &agg.from_vars, &mut diags);
        check_uses(b, Ghost(i as int), &provided, &agg.for_vars, &mut diags);
        proof {
            assert(stage_uses(inputs, i as int) =~= stage_uses(agg.from_vars@, i as int)
                + stage_uses(agg.for_vars@, i as int));
            lemma_gdf_concat(
                *b,
                stage_uses(agg.from_vars@, i as int),
                stage_uses(agg.for_vars@, i as int),
            );
            assert(diags@ =~= diags_before + groundedness_diags_from(
                *b,
                stage_uses(inputs, i as int),
            ));
            assert(am[i as int] == stage_uses(inputs, i as int));
            lemma_gdf_concat(*b, am.take(i as int).flatten(), am[i as int]);
            am.take(i as int).lemma_flatten_push(am[i as int]);
            assert(am.take(i + 1) =~= am.take(i as int).push(am[i as int]));
        }
        provided.push(agg.result.clone());
        proof {
            assert(aggregate_results(*b).take(i + 1) =~= aggregate_results(*b).take(
                i as int,
            ).push(b.aggregates@[i as int].result));
            assert(provided@ =~= staged_names(*b, i + 1));
        }
        i = i + 1;
    }
    proof {
        assert(am.take(am.len() as int) =~= am);
        assert(provided@ == staged_names(*b, s_full));
        assert(diags@ == groundedness_diags_from(*b, aggregate_staged(*b)));
    }
    let ghost um = b.updates@.map_values(|u: UpdateClause| u.consumed@);
    let ghost lm = b.lookups@.map_values(|l: Lookup| l.keys@);
    let ghost cm = b.calls@.map_values(|c: FunctionCall| call_arg_vars(c.params@));
    let ghost base = groundedness_diags_from(*b, aggregate_staged(*b));
    let mut i2: usize = 0;
    while i2 < b.updates.len()
        invariant
            0 <= i2 <= b.updates@.len(),
            provided@ == staged_names(*b, s_full),
            diags@ == base + groundedness_diags_from(
                *b,
                stage_uses(um.take(i2 as int).flatten(), s_full),
            ),
        decreases b.updates@.len() - i2,
    {
        let ghost diags_before = diags@;
        check_uses(b, Ghost(s_full), &provided, &b.updates[i2].consumed, &mut diags);
        proof {
            um.take(i2 as int).lemma_flatten_push(um[i2 as int]);
            assert(um.take(i2 + 1) =~= um.take(i2 as int).push(um[i2 as int]));
            assert(stage_uses(um.take(i2 + 1).flatten(), s_full) =~= stage_uses(
                um.take(i2 as int).flatten(),
                s_full,
            ) + stage_uses(um[i2 as int], s_full));
            lemma_gdf_concat(
                *b,
                stage_uses(um.take(i2 as int).flatten(), s_full),
                stage_uses(um[i2 as int], s_full),
            );
            assert(diags@ =~= base + groundedness_diags_from(
                *b,
                stage_uses(um.take(i2 + 1).flatten(), s_full),
            ));
        }
        i2 = i2 + 1;
    }
    proof {
        assert(um.take(um.len() as int) =~= um);
    }
    let ghost base2 = diags@;
    let mut i3: usize = 0;
    while i3 < b.lookups.len()
        invariant
            0 <= i3 <= b.lookups@.len(),
            provided@ == staged_names(*b, s_full),
            diags@ == base2 + groundedness_diags_from(
                *b,
                stage_uses(lm.take(i3 as int).flatten(), s_full),
            ),
        decreases b.lookups@.len() - i3,
    {
        check_uses(b, Ghost(s_full), &provided, &b.lookups[i3].keys, &mut diags);
        proof {
            lm.take(i3 as int).lemma_flatten_push(lm[i3 as int]);
            assert(lm.take(i3 + 1) =~= lm.take(i3 as int).push(lm[i3 as int]));
            assert(stage_uses(lm.take(i3 + 1).flatten(), s_full) =~= stage_uses(
                lm.take(i3 as int).flatten(),
                s_full,
            ) + stage_uses(lm[i3 as int], s_full));
            lemma_gdf_concat(
                *b,
                stage_uses(lm.take(i3 as int).flatten(), s_full),
                stage_uses(lm[i3 as int], s_full),
            );
            assert(diags@ =~= base2 + groundedness_diags_from(
                *b,
                stage_uses(lm.take(i3 + 1).flatten(), s_full),
            ));
        }
        i3 = i3 + 1;
    }
    proof {
        assert(lm.take(lm.len() as int) =~= lm);
    }
    let ghost base3 = diags@;
    let mut i4: usize = 0;
    while i4 < b.calls.len()
        invariant
            0 <= i4 <= b.calls@.len(),
            provided@ == staged_names(*b, s_full),
            diags@ == base3 + groundedness_diags_from(
                *b,
                stage_uses(cm.take(i4 as int).flatten(), s_full),
            ),
        decreases b.calls@.len() - i4,
    {
        check_params(b, Ghost(s_full), &provided, &b.calls[i4].params, &mut diags);
        proof {
            cm.take(i4 as int).lemma_flatten_push(cm[i4 as int]);
            assert(cm.take(i4 + 1) =~= cm.take(i4 as int).push(cm[i4 as int]));
            assert(stage_uses(cm.take(i4 + 1).flatten(), s_full) =~= stage_uses(
                cm.take(i4 as int).flatten(),
                s_full,
            ) + stage_uses(cm[i4 as int], s_full));
            lemma_gdf_concat(
                *b,
                stage_uses(cm.take(i4 as int).flatten(), s_full),
                stage_uses(cm[i4 as int], s_full),
            );
            assert(diags@ =~= base3 + groundedness_diags_from(
                *b,
                stage_uses(cm.take(i4 + 1).flatten(), s_full),
            ));
        }
        i4 = i4 + 1;
    }
    proof {
        assert(cm.take(cm.len() as int) =~= cm);
        assert(consumed_after(*b) == um.flatten() + lm.flatten() + cm.flatten());
        assert(stage_uses(consumed_after(*b), s_full) =~= stage_uses(um.flatten(), s_full)
            + stage_uses(lm.flatten(), s_full) + stage_uses(cm.flatten(), s_full));
        lemma_gdf_concat(
            *b,
            stage_uses(um.flatten(), s_full) + stage_uses(lm.flatten(), s_full),
            stage_uses(cm.flatten(), s_full),
        );
        lemma_gdf_concat(*b, stage_uses(um.flatten(), s_full), stage_uses(lm.flatten(), s_full));
        lemma_gdf_concat(*b, aggregate_staged(*b), stage_uses(consumed_after(*b), s_full));
        assert(diags@ =~= groundedness_diags_from(*b, staged_uses(*b)));
    }
    diags
}

} // verus!
