//! Laws of the machine, proved of every state.

use vstd::prelude::*;
use crate::vm::error::RuntimeError;
use crate::vm::model::{
    bind, bind_params, call_spec, load_spec, lookup_spec, resolve, return_spec,
    run_spec, step_spec, store_spec, VMView,
};
use crate::vm::opcode::{OpcodeView, ValueView};
use crate::vm::scope::ScopeView;

verus! {

/// Where no scope declares a name, no walk through the scopes finds it.
proof fn lemma_resolve_nowhere(scopes: Seq<ScopeView>, start: nat, name: Seq<char>)
    requires
        forall|k: int| 0 <= k < scopes.len() ==> !(#[trigger] scopes[k]).vars.contains_key(name),
    ensures
        resolve(scopes, start, name) is None,
    decreases start,
{
    if start < scopes.len() {
        match scopes[start as int].parent {
            Some(p) => {
                if p < start {
                    lemma_resolve_nowhere(scopes, p, name);
                }
            },
            None => {},
        }
    }
}

/// A walk through the scopes ends in a scope that declares the name, and
/// that scope is not younger than the one in which the walk began.
pub proof fn law_resolve_finds_a_declaration(scopes: Seq<ScopeView>, start: nat, name: Seq<char>)
    ensures
        match resolve(scopes, start, name) {
            Some(k) => k <= start && k < scopes.len() && scopes[k as int].vars.contains_key(name),
            None => true,
        },
    decreases start,
{
    if start < scopes.len() && !scopes[start as int].vars.contains_key(name) {
        match scopes[start as int].parent {
            Some(p) => {
                if p < start {
                    law_resolve_finds_a_declaration(scopes, p, name);
                }
            },
            None => {},
        }
    }
}

/// A walk sees only the scopes up to the one in which it began: scopes made
/// later do not change where it ends.
proof fn lemma_resolve_ignores_younger_scopes(
    scopes: Seq<ScopeView>,
    longer: Seq<ScopeView>,
    start: nat,
    name: Seq<char>,
)
    requires
        start < scopes.len() <= longer.len(),
        forall|k: int| 0 <= k <= start ==> scopes[k] == longer[k],
    ensures
        resolve(longer, start, name) == resolve(scopes, start, name),
    decreases start,
{
    if !scopes[start as int].vars.contains_key(name) {
        match scopes[start as int].parent {
            Some(p) => {
                if p < start {
                    lemma_resolve_ignores_younger_scopes(scopes, longer, p, name);
                }
            },
            None => {},
        }
    }
}

/// Giving a declared name a value does not change where walks end.
proof fn lemma_resolve_after_store(
    scopes: Seq<ScopeView>,
    k: nat,
    name: Seq<char>,
    slot: Option<ValueView>,
    start: nat,
    other: Seq<char>,
)
    requires
        k < scopes.len(),
        scopes[k as int].vars.contains_key(name),
    ensures
        resolve(bind(scopes, k, name, slot), start, other) == resolve(scopes, start, other),
    decreases start,
{
    let after = bind(scopes, k, name, slot);
    if start < scopes.len() {
        assert(after[start as int].vars.contains_key(other) == scopes[start as int].vars.contains_key(
            other,
        ));
        assert(after[start as int].parent == scopes[start as int].parent);
        if !scopes[start as int].vars.contains_key(other) {
            match scopes[start as int].parent {
                Some(p) => {
                    if p < start {
                        lemma_resolve_after_store(scopes, k, name, slot, p, other);
                    }
                },
                None => {},
            }
        }
    }
}

/// The bindings of a call hold exactly the parameters.
proof fn lemma_bind_params_domain(params: Seq<Seq<char>>, args: Seq<ValueView>, name: Seq<char>)
    requires
        params.len() == args.len(),
    ensures
        bind_params(params, args).contains_key(name) == params.contains(name),
    decreases params.len(),
{
    if params.len() > 0 {
        lemma_bind_params_domain(params.drop_first(), args.drop_first(), name);
        if params.contains(name) {
            let i = choose|i: int| 0 <= i < params.len() && params[i] == name;
            if i > 0 {
                assert(params.drop_first()[i - 1] == name);
            }
        }
        if params.drop_first().contains(name) {
            let i = choose|i: int|
                0 <= i < params.drop_first().len() && params.drop_first()[i] == name;
            assert(params[i + 1] == name);
        }
    }
}

/// A reference to a name that no scope declares is fatal, for reading and
/// for writing alike.
pub proof fn law_undeclared_name_is_fatal(s: VMView, name: Seq<char>)
    requires
        forall|k: int| 0 <= k < s.scopes.len() ==> !(#[trigger] s.scopes[k]).vars.contains_key(name),
    ensures
        load_spec(s, name) == Err::<VMView, RuntimeError>(RuntimeError::UndefinedVariable),
        store_spec(s, name) == Err::<VMView, RuntimeError>(RuntimeError::UndefinedVariable),
{
    lemma_resolve_nowhere(s.scopes, s.scope, name);
}

/// A call of a value that is no function is fatal.
pub proof fn law_call_of_non_function_is_fatal(s: VMView, argc: nat)
    requires
        s.stack.len() > 0,
        !(s.stack.last() is Function),
    ensures
        call_spec(s, argc) == Err::<VMView, RuntimeError>(RuntimeError::NotCallable),
{
}

/// A call with a number of arguments other than the number of parameters is
/// fatal.
pub proof fn law_call_with_wrong_argument_count_is_fatal(s: VMView, argc: nat)
    requires
        s.stack.len() > 0,
        s.stack.last() is Function,
        s.stack.last()->Function_0.params.len() != argc,
    ensures
        call_spec(s, argc) == Err::<VMView, RuntimeError>(RuntimeError::ArityMismatch),
{
}

/// A run ends in a halted machine, or in the state in which it met the
/// instruction that failed, with nothing of that instruction done; or it was
/// cut off.
pub proof fn law_run_stops_at_the_first_error(s: VMView, fuel: nat)
    ensures
        match run_spec(s, fuel).1 {
            Ok(_) => run_spec(s, fuel).0.halted(),
            Err(e) => !run_spec(s, fuel).0.halted() && (step_spec(run_spec(s, fuel).0) == Err::<
                VMView,
                RuntimeError,
            >(e) || e == RuntimeError::StepLimitExceeded),
        },
    decreases fuel,
{
    if !s.halted() && fuel > 0 {
        match step_spec(s) {
            Ok(t) => {
                law_run_stops_at_the_first_error(t, (fuel - 1) as nat);
            },
            Err(_) => {},
        }
    }
}

/// A run that ends without being cut off ends the same way with any larger
/// limit of steps.
pub proof fn law_run_is_stable_under_larger_limits(s: VMView, fuel: nat, more: nat)
    requires
        fuel <= more,
        run_spec(s, fuel).1 != Err::<(), RuntimeError>(RuntimeError::StepLimitExceeded),
    ensures
        run_spec(s, more) == run_spec(s, fuel),
    decreases fuel,
{
    if !s.halted() && fuel > 0 {
        match step_spec(s) {
            Ok(t) => {
                law_run_is_stable_under_larger_limits(t, (fuel - 1) as nat, (more - 1) as nat);
            },
            Err(_) => {},
        }
    }
}

/// A function that comes to the end of its body without a return yields the
/// "no value" sentinel to its caller.
pub proof fn law_missing_return_yields_the_sentinel(s: VMView)
    requires
        s.ip == s.code.len(),
        s.frames.len() > 0,
        s.stack.len() == s.frames.last().top,
    ensures
        step_spec(s) == Ok::<VMView, RuntimeError>(
            VMView {
                code: s.frames.last().code,
                ip: s.frames.last().ip + 1,
                stack: s.stack.push(ValueView::Nil),
                scope: s.frames.last().scope,
                scopes: s.scopes,
                frames: s.frames.drop_last(),
                output: s.output,
            },
        ),
{
}

/// What is stored to a name is what every holder of the declaring scope
/// reads: a walk from any scope that ends at the declaration written to
/// finds the new value.
pub proof fn law_store_is_seen_through_every_chain(
    scopes: Seq<ScopeView>,
    k: nat,
    name: Seq<char>,
    v: ValueView,
    start: nat,
)
    requires
        resolve(scopes, start, name) == Some(k),
    ensures
        lookup_spec(bind(scopes, k, name, Some(v)), start, name) == Ok::<ValueView, RuntimeError>(
            v,
        ),
{
    law_resolve_finds_a_declaration(scopes, start, name);
    lemma_resolve_after_store(scopes, k, name, Some(v), start, name);
}

/// A store to one name leaves the value of every other name as it was.
pub proof fn law_store_leaves_other_names(
    scopes: Seq<ScopeView>,
    k: nat,
    name: Seq<char>,
    v: ValueView,
    start: nat,
    other: Seq<char>,
)
    requires
        k < scopes.len(),
        scopes[k as int].vars.contains_key(name),
        other != name,
    ensures
        lookup_spec(bind(scopes, k, name, Some(v)), start, other) == lookup_spec(
            scopes,
            start,
            other,
        ),
{
    lemma_resolve_after_store(scopes, k, name, Some(v), start, other);
    law_resolve_finds_a_declaration(scopes, start, other);
}

/// Capture is lexical and by reference: inside a call, a name that is no
/// parameter has the value that it has in the scope where the function was
/// declared, as that scope is at the time of the call.
pub proof fn law_call_reads_the_defining_scope(s: VMView, argc: nat, name: Seq<char>)
    requires
        call_spec(s, argc) is Ok,
        !s.stack.last()->Function_0.params.contains(name),
    ensures
        ({
            let t = call_spec(s, argc).unwrap();
            lookup_spec(t.scopes, t.scope, name) == lookup_spec(
                s.scopes,
                s.stack.last()->Function_0.scope,
                name,
            )
        }),
{
    let f = s.stack.last()->Function_0;
    let t = call_spec(s, argc).unwrap();
    let floor = (s.stack.len() - 1 - argc) as nat;
    let args = s.stack.subrange(floor as int, s.stack.len() - 1);
    lemma_bind_params_domain(f.params, args, name);
    lemma_resolve_ignores_younger_scopes(s.scopes, t.scopes, f.scope, name);
    law_resolve_finds_a_declaration(s.scopes, f.scope, name);
    assert(t.scopes[t.scope as int].parent == Some(f.scope));
    assert(resolve(t.scopes, t.scope, name) == resolve(t.scopes, f.scope, name));
}

/// Inside a call, each parameter has the argument at its position; of a
/// name that occurs twice among the parameters the first occurrence counts.
pub proof fn law_call_binds_arguments(s: VMView, argc: nat, i: int)
    requires
        call_spec(s, argc) is Ok,
        0 <= i < argc,
        forall|j: int|
            0 <= j < i ==> #[trigger] s.stack.last()->Function_0.params[j]
                != s.stack.last()->Function_0.params[i],
    ensures
        ({
            let t = call_spec(s, argc).unwrap();
            lookup_spec(t.scopes, t.scope, s.stack.last()->Function_0.params[i]) == Ok::<
                ValueView,
                RuntimeError,
            >(s.stack[s.stack.len() - 1 - argc + i])
        }),
{
    let f = s.stack.last()->Function_0;
    let floor = (s.stack.len() - 1 - argc) as nat;
    let args = s.stack.subrange(floor as int, s.stack.len() - 1);
    lemma_bind_params_value(f.params, args, i);
}

/// The bindings of a call give a parameter the argument at the position of
/// its first occurrence.
proof fn lemma_bind_params_value(params: Seq<Seq<char>>, args: Seq<ValueView>, i: int)
    requires
        params.len() == args.len(),
        0 <= i < params.len(),
        forall|j: int| 0 <= j < i ==> #[trigger] params[j] != params[i],
    ensures
        bind_params(params, args).contains_key(params[i]),
        bind_params(params, args)[params[i]] == Some(args[i]),
    decreases params.len(),
{
    if i > 0 {
        assert(params[0] != params[i]);
        let rest = params.drop_first();
        assert forall|j: int| 0 <= j < i - 1 implies #[trigger] rest[j] != rest[i - 1] by {
            assert(params[j + 1] != params[i]);
        }
        lemma_bind_params_value(params.drop_first(), args.drop_first(), i - 1);
    }
}

/// Every step keeps the machine well formed.
pub proof fn law_step_preserves_well_formedness(s: VMView)
    requires
        s.wf(),
        step_spec(s) is Ok,
    ensures
        step_spec(s).unwrap().wf(),
{
    let t = step_spec(s).unwrap();
    if s.ip == s.code.len() {
        if s.frames.len() > 0 {
            lemma_return_preserves_well_formedness(s);
        }
    } else {
        match s.code[s.ip as int] {
            OpcodeView::Return => {
                lemma_return_preserves_well_formedness(s);
            },
            OpcodeView::Store(name) => {
                law_resolve_finds_a_declaration(s.scopes, s.scope, name);
            },
            _ => {},
        }
    }
}

/// A return keeps the machine well formed.
proof fn lemma_return_preserves_well_formedness(s: VMView)
    requires
        s.wf(),
        return_spec(s) is Ok,
    ensures
        return_spec(s).unwrap().wf(),
{
    let t = return_spec(s).unwrap();
    assert(s.frames.last() == s.frames[s.frames.len() - 1]);
    assert forall|i: int| 0 <= i < t.frames.len() implies (#[trigger] t.frames[i]).scope
        < t.scopes.len() && t.frames[i].ip < t.frames[i].code.len() by {
        assert(t.frames[i] == s.frames[i]);
    }
}

/// A run keeps the machine well formed.
pub proof fn law_run_preserves_well_formedness(s: VMView, fuel: nat)
    requires
        s.wf(),
    ensures
        run_spec(s, fuel).0.wf(),
    decreases fuel,
{
    if !s.halted() && fuel > 0 {
        match step_spec(s) {
            Ok(t) => {
                law_step_preserves_well_formedness(s);
                law_run_preserves_well_formedness(t, (fuel - 1) as nat);
            },
            Err(_) => {},
        }
    }
}

} // verus!
