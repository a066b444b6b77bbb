use crate::datum::{
    datum_equal, dv, dviews, equal_spec, flat_elems, list_of, rc_clone, Datum, DatumV,
};
use crate::environment::{lemma_bindings_entry, names_eq, Bindings};
use crate::error::RuntimeError;
use std::rc::Rc;
use vstd::prelude::*;

verus! {

/// The ellipsis marker `...`.
pub open spec fn ellipsis() -> Seq<char> {
    seq!['.', '.', '.']
}

pub open spec fn is_ellipsis_sym(v: DatumV) -> bool {
    v matches DatumV::Sym(s) && s == ellipsis()
}

/// Views of a list of names.
pub open spec fn name_seq(v: Seq<Rc<Vec<char>>>) -> Seq<Seq<char>> {
    v.map_values(|x: Rc<Vec<char>>| x@)
}

/// Whether a name occurs in a list of names.
pub fn name_in(names: &Vec<Rc<Vec<char>>>, name: &Vec<char>) -> (r: bool)
    ensures
        r == name_seq(names@).contains(name@),
{
    let mut i: usize = 0;
    while i < names.len()
        invariant
            i <= names@.len(),
            forall|j: int| 0 <= j < i ==> name_seq(names@)[j] != name@,
        decreases names@.len() - i,
    {
        if names_eq(&names[i], name) {
            proof {
                assert(name_seq(names@)[i as int] == name@);
            }
            return true;
        }
        proof {
            assert(name_seq(names@)[i as int] == names@[i as int]@);
        }
        i = i + 1;
    }
    proof {
        if name_seq(names@).contains(name@) {
            let j = choose|j: int| 0 <= j < name_seq(names@).len() && name_seq(names@)[j] == name@;
            assert(false);
        }
    }
    false
}

/// Whether a name is the ellipsis.
pub fn is_ellipsis_name(name: &Vec<char>) -> (r: bool)
    ensures
        r == (name@ == ellipsis()),
{
    if name.len() == 3 && name[0] == '.' && name[1] == '.' && name[2] == '.' {
        proof {
            assert(name@ =~= ellipsis());
        }
        true
    } else {
        proof {
            assert(name@ != ellipsis());
        }
        false
    }
}

/// Whether a datum is the ellipsis symbol.
pub fn is_ellipsis_datum(d: &Datum) -> (r: bool)
    ensures
        r == is_ellipsis_sym(d@),
{
    match d {
        Datum::Symbol(s) => is_ellipsis_name(s),
        _ => false,
    }
}

/// Whether a datum is the empty list.
pub fn is_empty_list(d: &Datum) -> (r: bool)
    ensures
        r == (d@ is Nil),
{
    match d {
        Datum::EmptyList => true,
        Datum::Boolean(_) => false,
        Datum::Number(_) => false,
        Datum::Character(_) => false,
        Datum::Symbol(_) => false,
        Datum::Str(_) => false,
        Datum::Pair(_, _) => false,
        Datum::Vector(_, _) => false,
        Datum::Procedure(_) => false,
        Datum::SyntaxRule(_) => false,
        Datum::Ext(_) => false,
    }
}

proof fn lemma_name_set_push(v: Seq<Rc<Vec<char>>>, x: Rc<Vec<char>>)
    ensures
        name_set(v.push(x)) == name_set(v).insert(x@),
{
    assert forall|k: Seq<char>| name_set(v.push(x)).contains(k) implies name_set(v).insert(
        x@,
    ).contains(k) by {
        let i = choose|i: int| 0 <= i < name_seq(v.push(x)).len() && name_seq(v.push(x))[i] == k;
        if i < v.len() {
            assert(name_seq(v)[i] == k);
        } else {
            assert(name_seq(v.push(x))[i] == x@);
        }
    }
    assert forall|k: Seq<char>| name_set(v).insert(x@).contains(k) implies name_set(
        v.push(x),
    ).contains(k) by {
        if k == x@ {
            assert(name_seq(v.push(x))[v.len() as int] == k);
        } else {
            let i = choose|i: int| 0 <= i < name_seq(v).len() && name_seq(v)[i] == k;
            assert(name_seq(v.push(x))[i] == k);
        }
    }
    assert(name_set(v.push(x)) =~= name_set(v).insert(x@));
}

/// The pattern variables collected by a valid pattern, in first-occurrence
/// order after `seen`; `None` when the pattern misplaces an ellipsis or
/// repeats a variable.
pub open spec fn pattern_vars_ok(
    p: DatumV,
    kws: Seq<Seq<char>>,
    list_begin: bool,
    seen: Seq<Seq<char>>,
) -> Option<Seq<Seq<char>>>
    decreases p,
{
    match p {
        DatumV::Sym(s) => {
            if !kws.contains(s) && s != ellipsis() {
                if seen.contains(s) {
                    None
                } else {
                    Some(seen.push(s))
                }
            } else {
                Some(seen)
            }
        },
        DatumV::Pair(a, b) => {
            if is_ellipsis_sym(*a) && (!(*b is Nil) || list_begin) {
                None
            } else {
                match pattern_vars_ok(*a, kws, true, seen) {
                    Some(s1) => pattern_vars_ok(*b, kws, false, s1),
                    None => None,
                }
            }
        },
        _ => Some(seen),
    }
}

/// The template symbols collected by a valid template, in first-occurrence
/// order after `seen`; `None` when an ellipsis starts a list.
pub open spec fn template_syms_ok(t: DatumV, list_begin: bool, seen: Seq<Seq<char>>) -> Option<
    Seq<Seq<char>>,
>
    decreases t,
{
    match t {
        DatumV::Sym(s) => {
            if s != ellipsis() {
                if seen.contains(s) {
                    Some(seen)
                } else {
                    Some(seen.push(s))
                }
            } else {
                Some(seen)
            }
        },
        DatumV::Pair(a, b) => {
            if is_ellipsis_sym(*a) && list_begin {
                None
            } else {
                match template_syms_ok(*a, true, seen) {
                    Some(s1) => template_syms_ok(*b, false, s1),
                    None => None,
                }
            }
        },
        _ => Some(seen),
    }
}

/// Verifies a pattern and collects its variables.  Duplicate pattern
/// variables are rejected, and an ellipsis may stand only at the end of a
/// list, after a sub-pattern.
pub fn verify_pattern_helper(
    p: &Datum,
    kws: &Vec<Rc<Vec<char>>>,
    list_begin: bool,
    vars: &mut Vec<Rc<Vec<char>>>,
) -> (r: Result<(), RuntimeError>)
    ensures
        match r {
            Ok(()) => {
                &&& pattern_vars_ok(p@, name_seq(kws@), list_begin, name_seq(old(vars)@)) == Some(
                    name_seq(final(vars)@),
                )
            },
            Err(e) => {
                &&& pattern_vars_ok(p@, name_seq(kws@), list_begin, name_seq(old(vars)@)) is None
                &&& e == RuntimeError::Syntax
            },
        },
    decreases *p,
{
    match p {
        Datum::Symbol(s) => {
            if !name_in(kws, s) && !is_ellipsis_name(s) {
                if name_in(vars, s) {
                    return Err(RuntimeError::Syntax);
                }
                let ghost pre = vars@;
                vars.push(crate::datum::rc_clone(s));
                proof {
                    assert(name_seq(vars@) =~= name_seq(pre).push(s@));
                }
                Ok(())
            } else {
                Ok(())
            }
        },
        Datum::Pair(a, b) => {
            if is_ellipsis_datum(&**a) {
                let list_end = is_empty_list(&**b);
                if !list_end || list_begin {
                    return Err(RuntimeError::Syntax);
                }
            }
            let r1 = verify_pattern_helper(&**a, kws, true, vars);
            match r1 {
                Ok(()) => verify_pattern_helper(&**b, kws, false, vars),
                Err(e) => Err(e),
            }
        },
        _ => Ok(()),
    }
}

/// Verifies a pattern, returning the names of all its pattern variables.
pub fn verify_pattern(p: &Datum, kws: &Vec<Rc<Vec<char>>>) -> (r: Result<
    Vec<Rc<Vec<char>>>,
    RuntimeError,
>)
    ensures
        match r {
            Ok(vars) => pattern_vars_ok(p@, name_seq(kws@), true, Seq::empty()) == Some(
                name_seq(vars@),
            ),
            Err(e) => {
                &&& pattern_vars_ok(p@, name_seq(kws@), true, Seq::empty()) is None
                &&& e == RuntimeError::Syntax
            },
        },
{
    let mut vars: Vec<Rc<Vec<char>>> = Vec::new();
    proof {
        assert(name_seq(vars@) =~= Seq::<Seq<char>>::empty());
    }
    match verify_pattern_helper(p, kws, true, &mut vars) {
        Ok(()) => Ok(vars),
        Err(e) => Err(e),
    }
}

/// Verifies a template, returning the names of all its symbols.
pub fn verify_template_helper(t: &Datum, list_begin: bool, syms: &mut Vec<Rc<Vec<char>>>) -> (r:
    Result<(), RuntimeError>)
    ensures
        match r {
            Ok(()) => template_syms_ok(t@, list_begin, name_seq(old(syms)@)) == Some(
                name_seq(final(syms)@),
            ),
            Err(e) => {
                &&& template_syms_ok(t@, list_begin, name_seq(old(syms)@)) is None
                &&& e == RuntimeError::Syntax
            },
        },
    decreases *t,
{
    match t {
        Datum::Symbol(s) => {
            if !is_ellipsis_name(s) {
                if !name_in(syms, s) {
                    let ghost pre = syms@;
                    syms.push(crate::datum::rc_clone(s));
                    proof {
                        assert(name_seq(syms@) =~= name_seq(pre).push(s@));
                    }
                }
                Ok(())
            } else {
                Ok(())
            }
        },
        Datum::Pair(a, b) => {
            if is_ellipsis_datum(&**a) && list_begin {
                return Err(RuntimeError::Syntax);
            }
            let r1 = verify_template_helper(&**a, true, syms);
            match r1 {
                Ok(()) => verify_template_helper(&**b, false, syms),
                Err(e) => Err(e),
            }
        },
        _ => Ok(()),
    }
}

/// Verifies a template, returning its symbols.
pub fn verify_template(t: &Datum) -> (r: Result<Vec<Rc<Vec<char>>>, RuntimeError>)
    ensures
        match r {
            Ok(syms) => template_syms_ok(t@, true, Seq::empty()) == Some(name_seq(syms@)),
            Err(e) => {
                &&& template_syms_ok(t@, true, Seq::empty()) is None
                &&& e == RuntimeError::Syntax
            },
        },
{
    let mut syms: Vec<Rc<Vec<char>>> = Vec::new();
    proof {
        assert(name_seq(syms@) =~= Seq::<Seq<char>>::empty());
    }
    match verify_template_helper(t, true, &mut syms) {
        Ok(()) => Ok(syms),
        Err(e) => Err(e),
    }
}

/// Renaming of template symbols: symbol values of the mapping replace the
/// symbols they are keyed by; everything else is kept.
pub open spec fn rename_tmpl(t: DatumV, m: Map<Seq<char>, DatumV>) -> DatumV
    decreases t,
{
    match t {
        DatumV::Sym(s) => {
            if m.dom().contains(s) && m[s] is Sym {
                m[s]
            } else {
                t
            }
        },
        DatumV::Pair(a, b) => DatumV::Pair(
            Box::new(rename_tmpl(*a, m)),
            Box::new(rename_tmpl(*b, m)),
        ),
        _ => t,
    }
}

/// Renames symbols in the template according to the mapping, whose values
/// are symbols.
pub fn rename_template(t: &Datum, mappings: &Bindings) -> (r: Datum)
    requires
        mappings.wf(),
    ensures
        r@ == rename_tmpl(t@, mappings@),
    decreases *t,
{
    match t {
        Datum::Symbol(s) => {
            match mappings.get(s) {
                Some(d) => {
                    match &d {
                        Datum::Symbol(_) => d.clone(),
                        _ => t.clone(),
                    }
                },
                None => t.clone(),
            }
        },
        Datum::Pair(a, b) => {
            let car = rename_template(&**a, mappings);
            let cdr = rename_template(&**b, mappings);
            Datum::Pair(Rc::new(car), Rc::new(cdr))
        },
        _ => t.clone(),
    }
}

/// The template symbols that are bound in the capture table (the variables
/// to iterate under an ellipsis).
pub open spec fn tmpl_vars(t: DatumV, dom: Set<Seq<char>>) -> Set<Seq<char>>
    decreases t,
{
    match t {
        DatumV::Sym(s) => {
            if dom.contains(s) && s != ellipsis() {
                Set::empty().insert(s)
            } else {
                Set::empty()
            }
        },
        DatumV::Pair(a, b) => tmpl_vars(*a, dom).union(tmpl_vars(*b, dom)),
        _ => Set::empty(),
    }
}

/// The set of names in a list.
pub open spec fn name_set(v: Seq<Rc<Vec<char>>>) -> Set<Seq<char>> {
    Set::new(|k: Seq<char>| name_seq(v).contains(k))
}

/// Collects the template symbols bound in the capture table, without
/// duplicates.
pub fn get_variables_helper(t: &Datum, var_env: &Bindings, vars: &mut Vec<Rc<Vec<char>>>)
    requires
        names_unique(old(vars)@),
    ensures
        names_unique(final(vars)@),
        name_set(final(vars)@) == name_set(old(vars)@).union(tmpl_vars(t@, var_env.dom())),
    decreases *t,
{
    match t {
        Datum::Symbol(s) => {
            if var_env.contains(s) && !is_ellipsis_name(s) {
                if !name_in(vars, s) {
                    let ghost pre = vars@;
                    let x = crate::datum::rc_clone(s);
                    vars.push(x);
                    proof {
                        assert(vars@ =~= pre.push(x));
                        lemma_name_set_push(pre, x);
                        assert forall|a: int| 0 <= a < pre.len() implies pre[a]@ != x@ by {
                            assert(name_seq(pre)[a] == pre[a]@);
                        }
                        assert(name_set(vars@) =~= name_set(pre).union(
                            tmpl_vars(t@, var_env.dom()),
                        ));
                    }
                } else {
                    proof {
                        assert(name_set(vars@) =~= name_set(vars@).union(
                            tmpl_vars(t@, var_env.dom()),
                        ));
                    }
                }
            } else {
                proof {
                    assert(name_set(vars@) =~= name_set(vars@).union(
                        tmpl_vars(t@, var_env.dom()),
                    ));
                }
            }
        },
        Datum::Pair(a, b) => {
            get_variables_helper(&**a, var_env, vars);
            get_variables_helper(&**b, var_env, vars);
            proof {
                assert(name_set(vars@) =~= name_set(old(vars)@).union(
                    tmpl_vars(t@, var_env.dom()),
                ));
            }
        },
        _ => {
            proof {
                assert(name_set(vars@) =~= name_set(vars@).union(tmpl_vars(t@, var_env.dom())));
            }
        },
    }
}

/// Collects the variables of a template under a capture table.
pub fn get_variables(t: &Datum, var_env: &Bindings) -> (r: Vec<Rc<Vec<char>>>)
    ensures
        names_unique(r@),
        name_set(r@) == tmpl_vars(t@, var_env.dom()),
{
    let mut vars: Vec<Rc<Vec<char>>> = Vec::new();
    proof {
        assert(name_set(vars@) =~= Set::<Seq<char>>::empty());
    }
    get_variables_helper(t, var_env, &mut vars);
    proof {
        assert(Set::<Seq<char>>::empty().union(tmpl_vars(t@, var_env.dom())) =~= tmpl_vars(
            t@,
            var_env.dom(),
        ));
    }
    vars
}

/// A list of names without repetition.
pub open spec fn names_unique(v: Seq<Rc<Vec<char>>>) -> bool {
    forall|i: int, j: int| 0 <= i < j < v.len() ==> v[i]@ != v[j]@
}

/// The proper list of the flat elements in reverse order.
pub open spec fn rev_datum(v: DatumV) -> DatumV {
    list_of(flat_elems(v).reverse())
}

/// One ellipsis step folded into the capture table: each captured value is
/// consed onto the accumulating (reversed) capture list of its variable.
pub open spec fn merged(env: Map<Seq<char>, DatumV>, sub: Map<Seq<char>, DatumV>) -> Map<
    Seq<char>,
    DatumV,
> {
    Map::new(
        |k: Seq<char>| env.dom().contains(k) || sub.dom().contains(k),
        |k: Seq<char>|
            if sub.dom().contains(k) {
                DatumV::Pair(
                    Box::new(sub[k]),
                    Box::new(
                        if env.dom().contains(k) {
                            env[k]
                        } else {
                            DatumV::Nil
                        },
                    ),
                )
            } else {
                env[k]
            },
    )
}

/// The capture lists of the touched variables, un-reversed.
pub open spec fn reversed_all(env: Map<Seq<char>, DatumV>, touched: Set<Seq<char>>) -> Map<
    Seq<char>,
    DatumV,
> {
    Map::new(
        |k: Seq<char>| env.dom().contains(k),
        |k: Seq<char>|
            if touched.contains(k) {
                rev_datum(env[k])
            } else {
                env[k]
            },
    )
}

/// Binds every non-keyword symbol of the pattern to the empty list (the
/// zero-repetition case of an ellipsis).
pub open spec fn bind_empty(
    p: DatumV,
    kws: Seq<Seq<char>>,
    env: Map<Seq<char>, DatumV>,
) -> Map<Seq<char>, DatumV>
    decreases p,
{
    match p {
        DatumV::Sym(s) => if !kws.contains(s) {
            env.insert(s, DatumV::Nil)
        } else {
            env
        },
        DatumV::Pair(a, b) => bind_empty(*b, kws, bind_empty(*a, kws, env)),
        _ => env,
    }
}

/// Whether a (tail) datum is a pair whose head is the ellipsis symbol.
pub open spec fn starts_with_ellipsis(v: DatumV) -> bool {
    match v {
        DatumV::Pair(n2, _) => is_ellipsis_sym(*n2),
        _ => false,
    }
}

/// Whether a datum is a pair whose head is the ellipsis symbol.
pub fn ellipsis_follows(d: &Datum) -> (r: bool)
    ensures
        r == starts_with_ellipsis(d@),
{
    match d {
        Datum::Pair(next, _) => is_ellipsis_datum(&**next),
        Datum::Boolean(_) => false,
        Datum::Number(_) => false,
        Datum::Character(_) => false,
        Datum::Symbol(_) => false,
        Datum::Str(_) => false,
        Datum::EmptyList => false,
        Datum::Vector(_, _) => false,
        Datum::Procedure(_) => false,
        Datum::SyntaxRule(_) => false,
        Datum::Ext(_) => false,
    }
}

/// Matching a pattern against an input under a capture table.  A keyword
/// matches only itself; any other symbol captures the input; an ellipsis
/// pattern greedily consumes the whole (proper) remaining list; other
/// pairs match element-wise, and atoms match by structural equality.
pub open spec fn match_sp(
    p: DatumV,
    inp: DatumV,
    kws: Seq<Seq<char>>,
    env: Map<Seq<char>, DatumV>,
) -> Option<Map<Seq<char>, DatumV>>
    decreases p, inp,
{
    match p {
        DatumV::Sym(s) => if kws.contains(s) {
            if inp == DatumV::Sym(s) {
                Some(env)
            } else {
                None
            }
        } else {
            Some(env.insert(s, inp))
        },
        DatumV::Vector(_, _) => None,
        DatumV::Proc(_) => None,
        DatumV::Syntax(_) => None,
        DatumV::Pair(pcar, pcdr) => {
            if starts_with_ellipsis(*pcdr) {
                match_many(*pcar, inp, kws, env, false, Set::empty())
            } else {
                match inp {
                    DatumV::Pair(icar, icdr) => match match_sp(*pcar, *icar, kws, env) {
                        Some(e1) => match_sp(*pcdr, *icdr, kws, e1),
                        None => None,
                    },
                    _ => None,
                }
            }
        },
        _ => if equal_spec(p, inp) {
            Some(env)
        } else {
            None
        },
    }
}

/// Greedy ellipsis matching: every element of the remaining proper list
/// must match the sub-pattern; the captures of each variable accumulate
/// (reversed) and are un-reversed at the end; zero matched elements bind
/// every pattern symbol to the empty list.
pub open spec fn match_many(
    p: DatumV,
    inp: DatumV,
    kws: Seq<Seq<char>>,
    env: Map<Seq<char>, DatumV>,
    started: bool,
    touched: Set<Seq<char>>,
) -> Option<Map<Seq<char>, DatumV>>
    decreases p, inp,
{
    match inp {
        DatumV::Nil => {
            let env1 = if started {
                env
            } else {
                bind_empty(p, kws, env)
            };
            Some(reversed_all(env1, touched))
        },
        DatumV::Pair(h, t) => {
            match match_sp(p, *h, kws, Map::empty()) {
                Some(sub) => match_many(
                    p,
                    *t,
                    kws,
                    merged(env, sub),
                    true,
                    touched.union(sub.dom()),
                ),
                None => None,
            }
        },
        _ => None,
    }
}

/// Binds every non-keyword symbol of the pattern to the empty list.
pub fn add_empty_matching(p: &Datum, kws: &Vec<Rc<Vec<char>>>, env: &mut Bindings)
    requires
        old(env).wf(),
    ensures
        final(env).wf(),
        final(env)@ == bind_empty(p@, name_seq(kws@), old(env)@),
    decreases *p,
{
    match p {
        Datum::Symbol(s) => {
            if !name_in(kws, s) {
                env.define(rc_clone(s), Datum::EmptyList);
            }
        },
        Datum::Pair(a, b) => {
            add_empty_matching(&**a, kws, env);
            add_empty_matching(&**b, kws, env);
        },
        _ => {},
    }
}

/// The capture table after folding in the first `j` entries of a step's
/// sub-table.
pub open spec fn merge_upto(
    env0: Map<Seq<char>, DatumV>,
    ents: Seq<(Seq<char>, DatumV)>,
    j: int,
) -> Map<Seq<char>, DatumV>
    decreases j,
{
    if j <= 0 {
        env0
    } else {
        let prev = merge_upto(env0, ents, j - 1);
        let k = ents[j - 1].0;
        prev.insert(
            k,
            DatumV::Pair(
                Box::new(ents[j - 1].1),
                Box::new(
                    if env0.dom().contains(k) {
                        env0[k]
                    } else {
                        DatumV::Nil
                    },
                ),
            ),
        )
    }
}

proof fn lemma_merge_upto_untouched(
    env0: Map<Seq<char>, DatumV>,
    ents: Seq<(Seq<char>, DatumV)>,
    j: int,
    k: Seq<char>,
)
    requires
        0 <= j <= ents.len(),
        forall|i: int| 0 <= i < j ==> ents[i].0 != k,
    ensures
        merge_upto(env0, ents, j).dom().contains(k) == env0.dom().contains(k),
        env0.dom().contains(k) ==> merge_upto(env0, ents, j)[k] == env0[k],
    decreases j,
{
    if j > 0 {
        lemma_merge_upto_untouched(env0, ents, j - 1, k);
    }
}

proof fn lemma_merge_upto_value(
    env0: Map<Seq<char>, DatumV>,
    ents: Seq<(Seq<char>, DatumV)>,
    j: int,
    i: int,
)
    requires
        0 <= i < j <= ents.len(),
        forall|a: int, b: int| 0 <= a < b < ents.len() ==> ents[a].0 != ents[b].0,
    ensures
        merge_upto(env0, ents, j).dom().contains(ents[i].0),
        merge_upto(env0, ents, j)[ents[i].0] == DatumV::Pair(
            Box::new(ents[i].1),
            Box::new(
                if env0.dom().contains(ents[i].0) {
                    env0[ents[i].0]
                } else {
                    DatumV::Nil
                },
            ),
        ),
    decreases j,
{
    if i == j - 1 {
    } else {
        lemma_merge_upto_value(env0, ents, j - 1, i);
        assert(ents[j - 1].0 != ents[i].0);
    }
}

proof fn lemma_merge_upto_full(env0: Map<Seq<char>, DatumV>, sub: Bindings)
    requires
        sub.wf(),
    ensures
        merge_upto(env0, sub.entries(), sub.entries().len() as int) == merged(env0, sub@),
{
    let ents = sub.entries();
    let n = ents.len() as int;
    let full = merge_upto(env0, ents, n);
    assert forall|k: Seq<char>| full.dom().contains(k) <==> merged(env0, sub@).dom().contains(
        k,
    ) by {
        if sub.dom().contains(k) {
            let i = sub.index_of(k);
            lemma_merge_upto_value(env0, ents, n, i);
        } else {
            assert(forall|i: int| 0 <= i < n ==> ents[i].0 != k);
            lemma_merge_upto_untouched(env0, ents, n, k);
        }
    }
    assert forall|k: Seq<char>| full.dom().contains(k) implies full[k] == merged(env0, sub@)[k] by {
        if sub.dom().contains(k) {
            let i = sub.index_of(k);
            lemma_merge_upto_value(env0, ents, n, i);
            lemma_bindings_entry(sub, i);
        } else {
            assert(forall|i: int| 0 <= i < n ==> ents[i].0 != k);
            lemma_merge_upto_untouched(env0, ents, n, k);
        }
    }
    assert(full =~= merged(env0, sub@));
}

/// Greedy ellipsis matching over the elements of a proper list.
pub fn match_many_exec(
    p: &Datum,
    inp: &Datum,
    kws: &Vec<Rc<Vec<char>>>,
    env: &mut Bindings,
    started: bool,
    touched: &mut Vec<Rc<Vec<char>>>,
) -> (r: bool)
    requires
        old(env).wf(),
        names_unique(old(touched)@),
    ensures
        final(env).wf(),
        names_unique(final(touched)@),
        match match_many(p@, inp@, name_seq(kws@), old(env)@, started, name_set(old(touched)@)) {
            Some(m) => r && final(env)@ == m,
            None => !r,
        },
    decreases *p, *inp,
{
    match inp {
        Datum::EmptyList => {
            if !started {
                add_empty_matching(p, kws, env);
            }
            let ghost env1 = env@;
            let mut i: usize = 0;
            while i < touched.len()
                invariant
                    env.wf(),
                    names_unique(touched@),
                    i <= touched@.len(),
                    env@ == reversed_all(env1, name_set(touched@.subrange(0, i as int))),
                    env@.dom() == env1.dom(),
                decreases touched@.len() - i,
            {
                let k = rc_clone(&touched[i]);
                let ghost pre_set = name_set(touched@.subrange(0, i as int));
                let ghost post_set = name_set(touched@.subrange(0, i + 1));
                proof {
                    assert(touched@.subrange(0, i + 1) =~= touched@.subrange(0, i as int).push(
                        touched@[i as int],
                    ));
                    lemma_name_set_push(touched@.subrange(0, i as int), touched@[i as int]);
                    assert(!pre_set.contains(k@)) by {
                        if pre_set.contains(k@) {
                            let j = choose|j: int|
                                0 <= j < i && name_seq(touched@.subrange(0, i as int))[j] == k@;
                            assert(touched@[j]@ == k@);
                        }
                    }
                }
                match env.get(&k) {
                    Some(d) => {
                        let rev = d.reverse();
                        env.define(k, rev);
                        proof {
                            assert(env@ =~= reversed_all(env1, post_set));
                            assert(env@.dom() =~= env1.dom());
                        }
                    },
                    None => {
                        proof {
                            assert(env@ =~= reversed_all(env1, post_set));
                        }
                    },
                }
                i = i + 1;
            }
            proof {
                assert(touched@.subrange(0, touched@.len() as int) =~= touched@);
            }
            true
        },
        Datum::Pair(h, t) => {
            let mut sub = Bindings::new();
            if !match_pattern_helper(p, &**h, kws, &mut sub) {
                return false;
            }
            let ghost env0 = env@;
            let ghost ents = sub.entries();
            let ghost touched0 = name_set(touched@);
            let mut j: usize = 0;
            while j < sub.len()
                invariant
                    sub.wf(),
                    env.wf(),
                    names_unique(touched@),
                    j <= ents.len(),
                    ents == sub.entries(),
                    env@ == merge_upto(env0, ents, j as int),
                    name_set(touched@) == touched0.union(
                        Set::new(
                            |k: Seq<char>|
                                exists|x: int| 0 <= x < j && ents[x].0 == k,
                        ),
                    ),
                decreases ents.len() - j,
            {
                let k = sub.name_at(j);
                let v = sub.value_at(j);
                proof {
                    assert forall|x: int| 0 <= x < j implies ents[x].0 != k@ by {
                        assert(ents[j as int].0 == k@);
                    }
                    lemma_merge_upto_untouched(env0, ents, j as int, k@);
                }
                let cur = match env.get(&k) {
                    Some(d) => d,
                    None => Datum::EmptyList,
                };
                let k2 = rc_clone(&k);
                env.define(k, Datum::pair(v, cur));
                let ghost tpre = touched@;
                if !name_in(touched, &k2) {
                    touched.push(k2);
                    proof {
                        lemma_name_set_push(tpre, touched@[touched@.len() - 1]);
                        assert forall|x: int| 0 <= x < tpre.len() implies tpre[x]@
                            != touched@[touched@.len() - 1]@ by {
                            assert(name_seq(tpre)[x] == tpre[x]@);
                        }
                    }
                }
                proof {
                    assert(env@ =~= merge_upto(env0, ents, j + 1));
                    assert(name_set(touched@) =~= touched0.union(
                        Set::new(
                            |k: Seq<char>|
                                exists|x: int| 0 <= x < j + 1 && ents[x].0 == k,
                        ),
                    ));
                }
                j = j + 1;
            }
            proof {
                lemma_merge_upto_full(env0, sub);
                assert(name_set(touched@) =~= touched0.union(sub@.dom())) by {
                    assert(sub@.dom() =~= Set::new(
                        |k: Seq<char>|
                            exists|x: int| 0 <= x < ents.len() && ents[x].0 == k,
                    ));
                }
            }
            match_many_exec(p, &**t, kws, env, true, touched)
        },
        Datum::Boolean(_) | Datum::Number(_) | Datum::Character(_) | Datum::Symbol(_)
            | Datum::Str(_) | Datum::Vector(_, _) | Datum::Procedure(_) | Datum::SyntaxRule(_)
            | Datum::Ext(_) => false,
    }
}

/// Matches a pattern against an input, extending the capture table.
pub fn match_pattern_helper(
    p: &Datum,
    inp: &Datum,
    kws: &Vec<Rc<Vec<char>>>,
    env: &mut Bindings,
) -> (r: bool)
    requires
        old(env).wf(),
    ensures
        final(env).wf(),
        match match_sp(p@, inp@, name_seq(kws@), old(env)@) {
            Some(m) => r && final(env)@ == m,
            None => !r,
        },
    decreases *p, *inp,
{
    match p {
        Datum::Symbol(s) => {
            if name_in(kws, s) {
                match inp {
                    Datum::Symbol(t) => names_eq(s, t),
                    Datum::Boolean(_) | Datum::Number(_) | Datum::Character(_) | Datum::Str(_)
                        | Datum::EmptyList | Datum::Pair(_, _) | Datum::Vector(_, _)
                        | Datum::Procedure(_) | Datum::SyntaxRule(_) | Datum::Ext(_) => false,
                }
            } else {
                env.define(rc_clone(s), inp.clone());
                true
            }
        },
        Datum::Vector(_, _) => false,
        Datum::Procedure(_) => false,
        Datum::SyntaxRule(_) => false,
        Datum::Pair(pcar, pcdr) => {
            if ellipsis_follows(&**pcdr) {
                let mut touched: Vec<Rc<Vec<char>>> = Vec::new();
                proof {
                    assert(name_set(touched@) =~= Set::<Seq<char>>::empty());
                }
                match_many_exec(&**pcar, inp, kws, env, false, &mut touched)
            } else {
                match inp {
                    Datum::Pair(icar, icdr) => {
                        if match_pattern_helper(&**pcar, &**icar, kws, env) {
                            match_pattern_helper(&**pcdr, &**icdr, kws, env)
                        } else {
                            false
                        }
                    },
                    Datum::Boolean(_) | Datum::Number(_) | Datum::Character(_) | Datum::Symbol(_)
                        | Datum::Str(_) | Datum::EmptyList | Datum::Vector(_, _)
                        | Datum::Procedure(_) | Datum::SyntaxRule(_) | Datum::Ext(_) => false,
                }
            }
        },
        Datum::Boolean(_) | Datum::Number(_) | Datum::Character(_) | Datum::Str(_)
            | Datum::EmptyList | Datum::Ext(_) => datum_equal(p, inp),
    }
}

/// Attempts to match the input against the pattern; on success the capture
/// table of the pattern variables is returned.
pub fn match_pattern(p: &Datum, inp: &Datum, kws: &Vec<Rc<Vec<char>>>) -> (r: Option<Bindings>)
    ensures
        match r {
            Some(env) => {
                &&& env.wf()
                &&& match_sp(p@, inp@, name_seq(kws@), Map::empty()) == Some(env@)
            },
            None => match_sp(p@, inp@, name_seq(kws@), Map::empty()) is None,
        },
{
    let mut env = Bindings::new();
    if match_pattern_helper(p, inp, kws, &mut env) {
        Some(env)
    } else {
        None
    }
}

/// Every variable collected from a template is bound in the table.
pub proof fn lemma_tmpl_vars_in_dom(t: DatumV, dom: Set<Seq<char>>)
    ensures
        tmpl_vars(t, dom).subset_of(dom),
    decreases t,
{
    match t {
        DatumV::Pair(a, b) => {
            lemma_tmpl_vars_in_dom(*a, dom);
            lemma_tmpl_vars_in_dom(*b, dom);
        },
        _ => {},
    }
}

/// `n` is the least capture-list length over the ellipsis variables.
pub open spec fn is_min_iters(n: int, vars: Set<Seq<char>>, env: Map<Seq<char>, DatumV>) -> bool {
    &&& forall|v: Seq<char>| vars.contains(v) ==> flat_elems(env[v]).len() >= n
    &&& exists|v: Seq<char>| vars.contains(v) && flat_elems(env[v]).len() == n
}

proof fn lemma_min_iters_unique(
    n1: int,
    n2: int,
    vars: Set<Seq<char>>,
    env: Map<Seq<char>, DatumV>,
)
    requires
        is_min_iters(n1, vars, env),
        is_min_iters(n2, vars, env),
    ensures
        n1 == n2,
{
    let w1 = choose|v: Seq<char>| vars.contains(v) && flat_elems(env[v]).len() == n1;
    let w2 = choose|v: Seq<char>| vars.contains(v) && flat_elems(env[v]).len() == n2;
    assert(flat_elems(env[w1]).len() >= n2);
    assert(flat_elems(env[w2]).len() >= n1);
}

/// The per-iteration capture table of an ellipsis expansion: each variable
/// bound to the i-th element of its capture list.
pub open spec fn sub_env_at(vars: Set<Seq<char>>, env: Map<Seq<char>, DatumV>, i: int) -> Map<
    Seq<char>,
    DatumV,
> {
    Map::new(|k: Seq<char>| vars.contains(k), |k: Seq<char>| flat_elems(env[k])[i])
}

/// The expansions consed in front of the rest of the list.
pub open spec fn attach(exps: Seq<DatumV>, rest: DatumV) -> DatumV
    decreases exps.len(),
{
    if exps.len() == 0 {
        rest
    } else {
        DatumV::Pair(Box::new(exps[0]), Box::new(attach(exps.drop_first(), rest)))
    }
}

/// Expansion of a template under a capture table.  A bound symbol is
/// substituted by its capture; `(t ... rest)` expands `t` once for each
/// index below the least capture length of the variables inside `t`
/// (an ellipsis with no variables is an error), followed by the expansion
/// of `rest`; other pairs expand element-wise; other atoms are themselves.
pub open spec fn apply_tmpl(t: DatumV, env: Map<Seq<char>, DatumV>) -> Option<DatumV>
    decreases t, 0int, 0int,
{
    match t {
        DatumV::Sym(s) => {
            if env.dom().contains(s) {
                Some(env[s])
            } else {
                Some(t)
            }
        },
        DatumV::Pair(car, cdr) => {
            match *cdr {
                DatumV::Pair(ell, after) => {
                    if is_ellipsis_sym(*ell) {
                        let vars = tmpl_vars(*car, env.dom());
                        if vars == Set::<Seq<char>>::empty() {
                            None
                        } else {
                            let n = choose|n: int| is_min_iters(n, vars, env);
                            match expand_iters(*car, vars, env, 0, n) {
                                Some(exps) => match apply_tmpl(*after, env) {
                                    Some(rest) => Some(attach(exps, rest)),
                                    None => None,
                                },
                                None => None,
                            }
                        }
                    } else {
                        match (apply_tmpl(*car, env), apply_tmpl(*cdr, env)) {
                            (Some(x), Some(y)) => Some(
                                DatumV::Pair(Box::new(x), Box::new(y)),
                            ),
                            _ => None,
                        }
                    }
                },
                _ => {
                    match (apply_tmpl(*car, env), apply_tmpl(*cdr, env)) {
                        (Some(x), Some(y)) => Some(DatumV::Pair(Box::new(x), Box::new(y))),
                        _ => None,
                    }
                },
            }
        },
        _ => Some(t),
    }
}

/// The expansions of a sub-template for iterations `i` up to `n`.
pub open spec fn expand_iters(
    car: DatumV,
    vars: Set<Seq<char>>,
    env: Map<Seq<char>, DatumV>,
    i: int,
    n: int,
) -> Option<Seq<DatumV>>
    decreases car, 1int, (if n - i > 0 { n - i } else { 0int }),
{
    if i >= n {
        Some(Seq::empty())
    } else {
        match apply_tmpl(car, sub_env_at(vars, env, i)) {
            Some(x) => match expand_iters(car, vars, env, i + 1, n) {
                Some(rest) => Some(seq![x] + rest),
                None => None,
            },
            None => None,
        }
    }
}

/// Applies a template under a capture table: substitutes captures and
/// expands ellipses.
#[verifier::loop_isolation(false)]
pub fn apply_template(t: &Datum, var_env: &Bindings) -> (r: Result<Datum, RuntimeError>)
    requires
        var_env.wf(),
    ensures
        match apply_tmpl(t@, var_env@) {
            Some(v) => r matches Ok(d) && d@ == v,
            None => r == Err::<Datum, RuntimeError>(RuntimeError::Syntax),
        },
    decreases *t,
{
    match t {
        Datum::Symbol(s) => {
            match var_env.get(s) {
                Some(d) => Ok(d),
                None => Ok(t.clone()),
            }
        },
        Datum::Pair(car, cdr) => {
            let ell = match &**cdr {
                Datum::Pair(next, _) => is_ellipsis_datum(&**next),
                Datum::Boolean(_) | Datum::Number(_) | Datum::Character(_) | Datum::Symbol(_)
                    | Datum::Str(_) | Datum::EmptyList | Datum::Vector(_, _)
                    | Datum::Procedure(_) | Datum::SyntaxRule(_) | Datum::Ext(_) => false,
            };
            if ell {
                match &**cdr {
                    Datum::Pair(_, after) => {
                        let ghost env0 = var_env@;
                        let ghost vs = tmpl_vars((**car)@, env0.dom());
                        let vars = get_variables(&**car, var_env);
                        proof {
                            assert(var_env.dom() == env0.dom());
                            assert(name_set(vars@) == vs);
                            lemma_tmpl_vars_in_dom((**car)@, env0.dom());
                        }
                        if vars.len() == 0 {
                            proof {
                                assert forall|k: Seq<char>| !vs.contains(k) by {
                                    if vs.contains(k) {
                                        let j = choose|j: int|
                                            0 <= j < name_seq(vars@).len() && name_seq(vars@)[j]
                                                == k;
                                        assert(false);
                                    }
                                }
                                assert(vs =~= Set::<Seq<char>>::empty());
                                assert(t@ == DatumV::Pair(
                                    Box::new((**car)@),
                                    Box::new((**cdr)@),
                                ));
                                assert(apply_tmpl(t@, var_env@) is None);
                            }
                            return Err(RuntimeError::Syntax);
                        }
                        proof {
                            assert(name_seq(vars@)[0] == vars@[0]@);
                            assert(vs.contains(vars@[0]@));
                            assert(vs != Set::<Seq<char>>::empty());
                        }
                        // Gather each variable's capture list.
                        let mut vecs: Vec<(Rc<Vec<char>>, Vec<Datum>)> = Vec::new();
                        let mut j: usize = 0;
                        while j < vars.len()
                            invariant
                                var_env.wf(),
                                j <= vars@.len(),
                                vecs@.len() == j,
                                env0 == var_env@,
                                name_set(vars@) == vs,
                                vs.subset_of(env0.dom()),
                                forall|x: int|
                                    0 <= x < j ==> (#[trigger] vecs@[x]).0@ == vars@[x]@ && dviews(
                                        vecs@[x].1@,
                                    ) == flat_elems(env0[vars@[x]@]),
                            decreases vars@.len() - j,
                        {
                            let name = rc_clone(&vars[j]);
                            proof {
                                assert(name_seq(vars@)[j as int] == vars@[j as int]@);
                                assert(vs.contains(vars@[j as int]@));
                            }
                            match var_env.get(&name) {
                                Some(d) => {
                                    let (elems, _) = d.as_vec();
                                    vecs.push((name, elems));
                                },
                                None => {
                                    // unreachable: every collected variable is bound
                                    return Err(RuntimeError::Syntax);
                                },
                            }
                            j = j + 1;
                        }
                        // The number of iterations is the least capture length.
                        let mut min: usize = vecs[0].1.len();
                        let mut j2: usize = 1;
                        while j2 < vecs.len()
                            invariant
                                1 <= j2 <= vecs@.len(),
                                forall|x: int| 0 <= x < j2 ==> (#[trigger] vecs@[x]).1@.len() >= min,
                                exists|x: int|
                                    0 <= x < j2 && (#[trigger] vecs@[x]).1@.len() == min,
                            decreases vecs@.len() - j2,
                        {
                            if vecs[j2].1.len() < min {
                                min = vecs[j2].1.len();
                            }
                            j2 = j2 + 1;
                        }
                        proof {
                            assert forall|v: Seq<char>| vs.contains(v) implies flat_elems(
                                env0[v],
                            ).len() >= min by {
                                let x = choose|x: int|
                                    0 <= x < name_seq(vars@).len() && name_seq(vars@)[x] == v;
                                assert(vecs@[x].0@ == v);
                                assert(dviews(vecs@[x].1@) == flat_elems(env0[v]));
                                assert(dviews(vecs@[x].1@).len() == vecs@[x].1@.len());
                            }
                            let wx = choose|x: int|
                                0 <= x < vecs@.len() && (#[trigger] vecs@[x]).1@.len() == min;
                            assert(name_seq(vars@)[wx] == vars@[wx]@);
                            assert(vs.contains(vars@[wx]@));
                            assert(dviews(vecs@[wx].1@).len() == vecs@[wx].1@.len());
                            assert(flat_elems(env0[vars@[wx]@]).len() == min);
                            assert(is_min_iters(min as int, vs, env0));
                            let chosen = choose|n: int| is_min_iters(n, vs, env0);
                            lemma_min_iters_unique(min as int, chosen, vs, env0);
                        }
                        // Expand the sub-template once per iteration.
                        let mut exps: Vec<Datum> = Vec::new();
                        let mut i: usize = 0;
                        while i < min
                            invariant
                                var_env.wf(),
                                i <= min,
                                env0 == var_env@,
                                vs == tmpl_vars((**car)@, env0.dom()),
                                vs.subset_of(env0.dom()),
                                vecs@.len() == vars@.len(),
                                name_set(vars@) == vs,
                                names_unique(vars@),
                                forall|x: int|
                                    0 <= x < vecs@.len() ==> (#[trigger] vecs@[x]).0@
                                        == vars@[x]@ && dviews(vecs@[x].1@) == flat_elems(
                                        env0[vars@[x]@],
                                    ) && vecs@[x].1@.len() >= min,
                                expand_iters((**car)@, vs, env0, 0, min as int) == (match
                                    expand_iters((**car)@, vs, env0, i as int, min as int) {
                                    Some(rest) => Some(dviews(exps@) + rest),
                                    None => None::<Seq<DatumV>>,
                                }),
                            decreases min - i,
                        {
                            // Build the capture table for this iteration.
                            let mut sub = Bindings::new();
                            let mut j3: usize = 0;
                            while j3 < vecs.len()
                                invariant
                                    sub.wf(),
                                    j3 <= vecs@.len(),
                                    i < min,
                                    vecs@.len() == vars@.len(),
                                    names_unique(vars@),
                                    forall|x: int|
                                        0 <= x < vecs@.len() ==> (#[trigger] vecs@[x]).0@
                                            == vars@[x]@ && dviews(vecs@[x].1@) == flat_elems(
                                            env0[vars@[x]@],
                                        ) && vecs@[x].1@.len() >= min,
                                    sub.dom() == Set::new(
                                        |k: Seq<char>|
                                            exists|x: int| 0 <= x < j3 && vars@[x]@ == k,
                                    ),
                                    forall|x: int|
                                        0 <= x < j3 ==> sub@[#[trigger] vars@[x]@] == flat_elems(
                                            env0[vars@[x]@],
                                        )[i as int],
                                decreases vecs@.len() - j3,
                            {
                                let name = rc_clone(&vecs[j3].0);
                                let value = vecs[j3].1[i].clone();
                                proof {
                                    assert(dviews(vecs@[j3 as int].1@)[i as int] == dv(
                                        vecs@[j3 as int].1@[i as int],
                                    ));
                                }
                                sub.define(name, value);
                                proof {
                                    assert(sub.dom() =~= Set::new(
                                        |k: Seq<char>|
                                            exists|x: int| 0 <= x < j3 + 1 && vars@[x]@ == k,
                                    ));
                                    assert forall|x: int| 0 <= x < j3 + 1 implies sub@[#[trigger] vars@[x]@]
                                        == flat_elems(env0[vars@[x]@])[i as int] by {
                                        if x < j3 {
                                            assert(vars@[x]@ != vars@[j3 as int]@);
                                        }
                                    }
                                }
                                j3 = j3 + 1;
                            }
                            proof {
                                assert(sub.dom() =~= vs) by {
                                    assert forall|k: Seq<char>|
                                        sub.dom().contains(k) <==> vs.contains(k) by {
                                        if sub.dom().contains(k) {
                                            let x = choose|x: int|
                                                0 <= x < vars@.len() && vars@[x]@ == k;
                                            assert(name_seq(vars@)[x] == k);
                                        }
                                        if vs.contains(k) {
                                            let x = choose|x: int|
                                                0 <= x < name_seq(vars@).len() && name_seq(
                                                    vars@,
                                                )[x] == k;
                                            assert(vars@[x]@ == k);
                                        }
                                    }
                                }
                                assert(sub@ =~= sub_env_at(vs, env0, i as int)) by {
                                    assert forall|k: Seq<char>| sub.dom().contains(k) implies sub@[k]
                                        == flat_elems(env0[k])[i as int] by {
                                        let x = choose|x: int|
                                            0 <= x < vars@.len() && vars@[x]@ == k;
                                    }
                                }
                            }
                            match apply_template(&**car, &sub) {
                                Ok(d) => {
                                    let ghost pre = exps@;
                                    exps.push(d);
                                    proof {
                                        assert(dviews(exps@) =~= dviews(pre).push(d@));
                                        if expand_iters((**car)@, vs, env0, i as int, min as int)
                                            is Some {
                                            let rest = expand_iters(
                                                (**car)@,
                                                vs,
                                                env0,
                                                i + 1,
                                                min as int,
                                            )->Some_0;
                                            assert(dviews(pre).push(d@) + rest =~= dviews(pre) + (
                                            seq![d@] + rest));
                                        }
                                    }
                                },
                                Err(_) => {
                                    return Err(RuntimeError::Syntax);
                                },
                            }
                            i = i + 1;
                        }
                        proof {
                            assert(expand_iters((**car)@, vs, env0, min as int, min as int)
                                == Some(Seq::<DatumV>::empty()));
                            assert(dviews(exps@) + Seq::<DatumV>::empty() =~= dviews(exps@));
                            assert(expand_iters((**car)@, vs, env0, 0, min as int) == Some(
                                dviews(exps@),
                            ));
                        }
                        // Expand the rest of the list and cons the expansions in front.
                        let rest = apply_template(&**after, var_env)?;
                        let ghost expsv = dviews(exps@);
                        let mut result = rest;
                        let mut j4: usize = exps.len();
                        while j4 > 0
                            invariant
                                j4 <= exps@.len(),
                                expsv == dviews(exps@),
                                result@ == attach(
                                    expsv.subrange(j4 as int, expsv.len() as int),
                                    apply_tmpl((**after)@, env0)->Some_0,
                                ),
                            decreases j4,
                        {
                            j4 = j4 - 1;
                            let e = exps[j4].clone();
                            result = Datum::pair(e, result);
                            proof {
                                let tail = expsv.subrange(j4 as int, expsv.len() as int);
                                assert(tail[0] == dv(exps@[j4 as int]));
                                assert(tail.drop_first() =~= expsv.subrange(
                                    j4 + 1,
                                    expsv.len() as int,
                                ));
                            }
                        }
                        proof {
                            assert(expsv.subrange(0, expsv.len() as int) =~= expsv);
                        }
                        Ok(result)
                    },
                    Datum::Boolean(_) | Datum::Number(_) | Datum::Character(_) | Datum::Symbol(_)
                        | Datum::Str(_) | Datum::EmptyList | Datum::Vector(_, _)
                        | Datum::Procedure(_) | Datum::SyntaxRule(_) | Datum::Ext(_) => {
                        // unreachable: the head of the tail was the ellipsis
                        Err(RuntimeError::Syntax)
                    },
                }
            } else {
                let x = apply_template(&**car, var_env)?;
                let y = apply_template(&**cdr, var_env)?;
                Ok(Datum::pair(x, y))
            }
        },
        Datum::Boolean(_) | Datum::Number(_) | Datum::Character(_) | Datum::Str(_)
            | Datum::EmptyList | Datum::Vector(_, _) | Datum::Procedure(_)
            | Datum::SyntaxRule(_) | Datum::Ext(_) => Ok(t.clone()),
    }
}

} // verus!
