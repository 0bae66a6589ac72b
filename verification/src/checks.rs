//! The structural validators, and the whole-block validation pass.
//!
//! Three independent, stateless checks: a sorted aggregate's `from`
//! list must match its `for` list in size; a lookup's type field must
//! be exactly `"add"` or `"remove"`; a called function must exist in
//! the registry and every parameter handed to it must be one the
//! registry recognizes. The block pass runs them all, then the
//! groundedness analyzer, and collects every diagnostic in detection
//! order — it never stops at the first failure.

use vstd::prelude::*;
use vstd::string::StringExecFns;
use crate::analysis::{analyze_block, contains_name, groundedness_diags, seq_has_name};
use crate::block::{Aggregate, Block, FunctionCall, FunctionDef, Lookup, ParamUse};
use crate::error::{CompileError, Error};

verus! {

/// A sorted aggregate whose `from` operand list differs in size from
/// its `for` operand list.
pub open spec fn needle_mismatch(a: Aggregate) -> bool {
    a.sorted && a.from_vars@.len() != a.for_vars@.len()
}

/// The diagnostic for an aggregate whose operand lists mismatch.
pub open spec fn needle_diag(a: Aggregate) -> CompileError {
    CompileError { span: a.from_span, error: Error::InvalidNeedle }
}

/// The arity diagnostics for a list of aggregates, in order.
pub open spec fn aggregate_diags(aggs: Seq<Aggregate>) -> Seq<CompileError>
    decreases aggs.len(),
{
    if aggs.len() == 0 {
        Seq::empty()
    } else {
        let head = if needle_mismatch(aggs[0]) {
            seq![needle_diag(aggs[0])]
        } else {
            Seq::empty()
        };
        head + aggregate_diags(aggs.drop_first())
    }
}

/// A valid lookup type field: exactly `"add"` or `"remove"`,
/// case-sensitive, no alternate spellings.
pub open spec fn lookup_type_ok(l: Lookup) -> bool {
    l.lookup_type@ == "add"@ || l.lookup_type@ == "remove"@
}

/// The diagnostic for a lookup whose type field is invalid.
pub open spec fn lookup_diag(l: Lookup) -> CompileError {
    CompileError { span: l.type_span, error: Error::InvalidLookupType }
}

/// The discriminant diagnostics for a list of lookups, in order.
pub open spec fn lookup_diags(ls: Seq<Lookup>) -> Seq<CompileError>
    decreases ls.len(),
{
    if ls.len() == 0 {
        Seq::empty()
    } else {
        let head = if !lookup_type_ok(ls[0]) {
            seq![lookup_diag(ls[0])]
        } else {
            Seq::empty()
        };
        head + lookup_diags(ls.drop_first())
    }
}

/// The first registry entry with the given name, if any.
pub open spec fn find_fn(reg: Seq<FunctionDef>, name: Seq<char>) -> Option<FunctionDef>
    decreases reg.len(),
{
    if reg.len() == 0 {
        Option::None
    } else if reg[0].name@ == name {
        Option::Some(reg[0])
    } else {
        find_fn(reg.drop_first(), name)
    }
}

/// The diagnostics for the parameters of one recognized function:
/// one `UnknownFunctionParam` per parameter outside the recognized
/// set, in call order.
pub open spec fn param_diags(allowed: Seq<String>, fname: String, ps: Seq<ParamUse>) -> Seq<
    CompileError,
>
    decreases ps.len(),
{
    if ps.len() == 0 {
        Seq::empty()
    } else {
        let head = if !seq_has_name(allowed, ps[0].name@) {
            seq![
                (CompileError {
                    span: ps[0].span,
                    error: Error::UnknownFunctionParam(fname, ps[0].name),
                }),
            ]
        } else {
            Seq::empty()
        };
        head + param_diags(allowed, fname, ps.drop_first())
    }
}

/// The diagnostics for one call: a single `UnknownFunction` when the
/// registry does not know the name; otherwise one diagnostic per
/// unrecognized parameter.
pub open spec fn call_diags_one(reg: Seq<FunctionDef>, c: FunctionCall) -> Seq<CompileError> {
    match find_fn(reg, c.name@) {
        Option::None => seq![
            (CompileError { span: c.name_span, error: Error::UnknownFunction(c.name) }),
        ],
        Option::Some(f) => param_diags(f.params@, c.name, c.params@),
    }
}

/// The resolution diagnostics for a list of calls, in order.
pub open spec fn call_diags(reg: Seq<FunctionDef>, cs: Seq<FunctionCall>) -> Seq<CompileError>
    decreases cs.len(),
{
    if cs.len() == 0 {
        Seq::empty()
    } else {
        call_diags_one(reg, cs[0]) + call_diags(reg, cs.drop_first())
    }
}

/// Everything the structural validators emit for a block, in order:
/// aggregate arity, then lookup discriminants, then call resolution.
pub open spec fn structure_diags(b: Block, reg: Seq<FunctionDef>) -> Seq<CompileError> {
    aggregate_diags(b.aggregates@) + lookup_diags(b.lookups@) + call_diags(reg, b.calls@)
}

/// Everything a validation pass emits for a block: the structural
/// diagnostics, then the groundedness diagnostics.
pub open spec fn validate_diags(b: Block, reg: Seq<FunctionDef>) -> Seq<CompileError> {
    structure_diags(b, reg) + groundedness_diags(b)
}

proof fn lemma_aggregate_diags_push(aggs: Seq<Aggregate>, a: Aggregate)
    ensures
        aggregate_diags(aggs.push(a)) == aggregate_diags(aggs) + (if needle_mismatch(a) {
            seq![needle_diag(a)]
        } else {
            Seq::<CompileError>::empty()
        }),
    decreases aggs.len(),
{
    let tail = if needle_mismatch(a) {
        seq![needle_diag(a)]
    } else {
        Seq::<CompileError>::empty()
    };
    if aggs.len() == 0 {
        let single = aggs.push(a);
        assert(single.drop_first() =~= Seq::<Aggregate>::empty());
        assert(single[0] == a);
        assert(aggregate_diags(single.drop_first()) == Seq::<CompileError>::empty());
        assert(aggs =~= Seq::<Aggregate>::empty());
        assert(aggregate_diags(single) =~= aggregate_diags(aggs) + tail);
    } else {
        lemma_aggregate_diags_push(aggs.drop_first(), a);
        assert(aggs.push(a).drop_first() =~= aggs.drop_first().push(a));
        assert(aggs.push(a)[0] == aggs[0]);
        let h = if needle_mismatch(aggs[0]) {
            seq![needle_diag(aggs[0])]
        } else {
            Seq::<CompileError>::empty()
        };
        assert(h + (aggregate_diags(aggs.drop_first()) + tail) =~= (h + aggregate_diags(
            aggs.drop_first(),
        )) + tail);
        assert(aggregate_diags(aggs.push(a)) =~= aggregate_diags(aggs) + tail);
    }
}

proof fn lemma_lookup_diags_push(ls: Seq<Lookup>, l: Lookup)
    ensures
        lookup_diags(ls.push(l)) == lookup_diags(ls) + (if !lookup_type_ok(l) {
            seq![lookup_diag(l)]
        } else {
            Seq::<CompileError>::empty()
        }),
    decreases ls.len(),
{
    let tail = if !lookup_type_ok(l) {
        seq![lookup_diag(l)]
    } else {
        Seq::<CompileError>::empty()
    };
    if ls.len() == 0 {
        let single = ls.push(l);
        assert(single.drop_first() =~= Seq::<Lookup>::empty());
        assert(single[0] == l);
        assert(lookup_diags(single.drop_first()) == Seq::<CompileError>::empty());
        assert(ls =~= Seq::<Lookup>::empty());
        assert(lookup_diags(single) =~= lookup_diags(ls) + tail);
    } else {
        lemma_lookup_diags_push(ls.drop_first(), l);
        assert(ls.push(l).drop_first() =~= ls.drop_first().push(l));
        assert(ls.push(l)[0] == ls[0]);
        let h = if !lookup_type_ok(ls[0]) {
            seq![lookup_diag(ls[0])]
        } else {
            Seq::<CompileError>::empty()
        };
        assert(h + (lookup_diags(ls.drop_first()) + tail) =~= (h + lookup_diags(ls.drop_first()))
            + tail);
        assert(lookup_diags(ls.push(l)) =~= lookup_diags(ls) + tail);
    }
}

proof fn lemma_param_diags_push(allowed: Seq<String>, fname: String, ps: Seq<ParamUse>, p: ParamUse)
    ensures
        param_diags(allowed, fname, ps.push(p)) == param_diags(allowed, fname, ps) + (
        if !seq_has_name(allowed, p.name@) {
            seq![
                (CompileError { span: p.span, error: Error::UnknownFunctionParam(fname, p.name) }),
            ]
        } else {
            Seq::<CompileError>::empty()
        }),
    decreases ps.len(),
{
    let tail = if !seq_has_name(allowed, p.name@) {
        seq![(CompileError { span: p.span, error: Error::UnknownFunctionParam(fname, p.name) })]
    } else {
        Seq::<CompileError>::empty()
    };
    if ps.len() == 0 {
        let single = ps.push(p);
        assert(single.drop_first() =~= Seq::<ParamUse>::empty());
        assert(single[0] == p);
        assert(param_diags(allowed, fname, single.drop_first()) == Seq::<CompileError>::empty());
        assert(ps =~= Seq::<ParamUse>::empty());
        assert(param_diags(allowed, fname, single) =~= param_diags(allowed, fname, ps) + tail);
    } else {
        lemma_param_diags_push(allowed, fname, ps.drop_first(), p);
        assert(ps.push(p).drop_first() =~= ps.drop_first().push(p));
        assert(ps.push(p)[0] == ps[0]);
        let h = if !seq_has_name(allowed, ps[0].name@) {
            seq![
                (CompileError {
                    span: ps[0].span,
                    error: Error::UnknownFunctionParam(fname, ps[0].name),
                }),
            ]
        } else {
            Seq::<CompileError>::empty()
        };
        assert(h + (param_diags(allowed, fname, ps.drop_first()) + tail) =~= (h + param_diags(
            allowed,
            fname,
            ps.drop_first(),
        )) + tail);
        assert(param_diags(allowed, fname, ps.push(p)) =~= param_diags(allowed, fname, ps) + tail);
    }
}

proof fn lemma_call_diags_push(reg: Seq<FunctionDef>, cs: Seq<FunctionCall>, c: FunctionCall)
    ensures
        call_diags(reg, cs.push(c)) == call_diags(reg, cs) + call_diags_one(reg, c),
    decreases cs.len(),
{
    if cs.len() == 0 {
        let single = cs.push(c);
        assert(single.drop_first() =~= Seq::<FunctionCall>::empty());
        assert(single[0] == c);
        assert(call_diags(reg, single.drop_first()) == Seq::<CompileError>::empty());
        assert(cs =~= Seq::<FunctionCall>::empty());
        assert(call_diags(reg, single) =~= call_diags(reg, cs) + call_diags_one(reg, c));
    } else {
        lemma_call_diags_push(reg, cs.drop_first(), c);
        assert(cs.push(c).drop_first() =~= cs.drop_first().push(c));
        assert(cs.push(c)[0] == cs[0]);
        assert(call_diags_one(reg, cs[0]) + (call_diags(reg, cs.drop_first()) + call_diags_one(
            reg,
            c,
        )) =~= (call_diags_one(reg, cs[0]) + call_diags(reg, cs.drop_first())) + call_diags_one(
            reg,
            c,
        ));
        assert(call_diags(reg, cs.push(c)) =~= call_diags(reg, cs) + call_diags_one(reg, c));
    }
}

/// Aggregate arity check: a sorted aggregate's `from` list must match
/// its `for` list in size; a mismatch yields exactly one
/// `InvalidNeedle` spanning the `from` clause, and nothing else is
/// ever reported here.
pub fn check_aggregate(a: &Aggregate) -> (r: Option<CompileError>)
    ensures
        r is Some <==> needle_mismatch(*a),
        needle_mismatch(*a) ==> r == Some(needle_diag(*a)),
{
    if a.sorted && a.from_vars.len() != a.for_vars.len() {
        Some(CompileError { span: a.from_span, error: Error::InvalidNeedle })
    } else {
        None
    }
}

/// Lookup discriminant check: the type field must be exactly `"add"`
/// or `"remove"`; anything else yields exactly one `InvalidLookupType`
/// spanning the type field's token.
pub fn check_lookup(l: &Lookup) -> (r: Option<CompileError>)
    ensures
        r is Some <==> !lookup_type_ok(*l),
        !lookup_type_ok(*l) ==> r == Some(lookup_diag(*l)),
{
    let add = String::from_str("add");
    let remove = String::from_str("remove");
    if l.lookup_type == add || l.lookup_type == remove {
        None
    } else {
        Some(CompileError { span: l.type_span, error: Error::InvalidLookupType })
    }
}

/// The first registry entry with the given name, if any.
fn find_function<'a>(registry: &'a Vec<FunctionDef>, name: &String) -> (r: Option<
    &'a FunctionDef,
>)
    ensures
        match r {
            Option::Some(f) => find_fn(registry@, name@) == Option::Some(*f),
            Option::None => find_fn(registry@, name@) is None,
        },
{
    let ghost whole = registry@;
    proof {
        assert(whole.skip(0) =~= whole);
    }
    let mut i: usize = 0;
    while i < registry.len()
        invariant
            0 <= i <= whole.len(),
            whole == registry@,
            find_fn(whole, name@) == find_fn(whole.skip(i as int), name@),
        decreases whole.len() - i,
    {
        proof {
            assert(whole.skip(i as int)[0] == whole[i as int]);
            assert(whole.skip(i as int).drop_first() =~= whole.skip(i + 1));
        }
        if registry[i].name == *name {
            return Some(&registry[i]);
        }
        i = i + 1;
    }
    proof {
        assert(whole.skip(whole.len() as int) =~= Seq::<FunctionDef>::empty());
    }
    None
}

/// Function resolution check: an unregistered name yields exactly one
/// `UnknownFunction`; a registered one yields one
/// `UnknownFunctionParam` per parameter outside its recognized set, in
/// call order (a call with two bad parameters yields two diagnostics).
#[verifier::loop_isolation(false)]
pub fn check_call(c: &FunctionCall, registry: &Vec<FunctionDef>) -> (r: Vec<CompileError>)
    ensures
        r@ == call_diags_one(registry@, *c),
{
    let mut diags: Vec<CompileError> = Vec::new();
    match find_function(registry, &c.name) {
        Option::None => {
            diags.push(CompileError {
                span: c.name_span,
                error: Error::UnknownFunction(c.name.clone()),
            });
            proof {
                assert(diags@ =~= call_diags_one(registry@, *c));
            }
        }
        Option::Some(f) => {
            let mut k: usize = 0;
            while k < c.params.len()
                invariant
                    0 <= k <= c.params@.len(),
                    diags@ == param_diags(f.params@, c.name, c.params@.take(k as int)),
                decreases c.params@.len() - k,
            {
                let p = &c.params[k];
                if !contains_name(&f.params, &p.name) {
                    diags.push(CompileError {
                        span: p.span,
                        error: Error::UnknownFunctionParam(c.name.clone(), p.name.clone()),
                    });
                }
                proof {
                    lemma_param_diags_push(
                        f.params@,
                        c.name,
                        c.params@.take(k as int),
                        c.params@[k as int],
                    );
                    assert(c.params@.take(k + 1) =~= c.params@.take(k as int).push(
                        c.params@[k as int],
                    ));
                    assert(diags@ =~= param_diags(f.params@, c.name, c.params@.take(k + 1)));
                }
                k = k + 1;
            }
            proof {
                assert(c.params@.take(c.params@.len() as int) =~= c.params@);
            }
        }
    }
    diags
}

/// Validates one block: runs the structural validators (aggregate
/// arity, lookup discriminants, call resolution), then the
/// groundedness analyzer, and returns every diagnostic in detection
/// order. Nothing aborts at the first failure; duplicates at the same
/// span are legitimate when independent checks fail on one construct.
#[verifier::loop_isolation(false)]
pub fn validate_block(b: &Block, registry: &Vec<FunctionDef>) -> (r: Vec<CompileError>)
    ensures
        r@ == validate_diags(*b, registry@),
{
    let mut diags: Vec<CompileError> = Vec::new();
    let mut i: usize = 0;
    while i < b.aggregates.len()
        invariant
            0 <= i <= b.aggregates@.len(),
            diags@ == aggregate_diags(b.aggregates@.take(i as int)),
        decreases b.aggregates@.len() - i,
    {
        let ghost prefix = b.aggregates@.take(i as int);
        if let Some(ce) = check_aggregate(&b.aggregates[i]) {
            diags.push(ce);
        }
        proof {
            lemma_aggregate_diags_push(prefix, b.aggregates@[i as int]);
            assert(b.aggregates@.take(i + 1) =~= prefix.push(b.aggregates@[i as int]));
            assert(diags@ =~= aggregate_diags(b.aggregates@.take(i + 1)));
        }
        i = i + 1;
    }
    proof {
        assert(b.aggregates@.take(b.aggregates@.len() as int) =~= b.aggregates@);
    }
    let ghost base1 = aggregate_diags(b.aggregates@);
    let mut j: usize = 0;
    while j < b.lookups.len()
        invariant
            0 <= j <= b.lookups@.len(),
            diags@ == base1 + lookup_diags(b.lookups@.take(j as int)),
        decreases b.lookups@.len() - j,
    {
        let ghost prefix = b.lookups@.take(j as int);
        if let Some(ce) = check_lookup(&b.lookups[j]) {
            diags.push(ce);
        }
        proof {
            lemma_lookup_diags_push(prefix, b.lookups@[j as int]);
            assert(b.lookups@.take(j + 1) =~= prefix.push(b.lookups@[j as int]));
            assert(diags@ =~= base1 + lookup_diags(b.lookups@.take(j + 1)));
        }
        j = j + 1;
    }
    proof {
        assert(b.lookups@.take(b.lookups@.len() as int) =~= b.lookups@);
    }
    let ghost base2 = base1 + lookup_diags(b.lookups@);
    let mut k: usize = 0;
    while k < b.calls.len()
        invariant
            0 <= k <= b.calls@.len(),
            diags@ == base2 + call_diags(registry@, b.calls@.take(k as int)),
        decreases b.calls@.len() - k,
    {
        let ghost prefix = b.calls@.take(k as int);
        let mut part = check_call(&b.calls[k], registry);
        diags.append(&mut part);
        proof {
            lemma_call_diags_push(registry@, prefix, b.calls@[k as int]);
            assert(b.calls@.take(k + 1) =~= prefix.push(b.calls@[k as int]));
            assert(diags@ =~= base2 + call_diags(registry@, b.calls@.take(k + 1)));
        }
        k = k + 1;
    }
    proof {
        assert(b.calls@.take(b.calls@.len() as int) =~= b.calls@);
        assert(diags@ =~= structure_diags(*b, registry@));
    }
    let mut grounded = analyze_block(b);
    diags.append(&mut grounded);
    proof {
        assert(diags@ =~= validate_diags(*b, registry@));
    }
    diags
}

} // verus!
