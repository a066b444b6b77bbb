use crate::datum::{
    datum_equal, datum_eqv, dv, dviews, equal_spec, eqv_spec, flat_elems, improper_of, is_proper,
    list_of, rc_clone, str_chars, Datum, DatumV, NativeOp, Procedure, SpecialOp,
};
use crate::environment::{copy_name, names_eq, Bindings};
use crate::error::RuntimeError;
use crate::numtext::{numeral_shape, numeral_val, parse_i64};
use crate::datum::{names_view, opt_name_view, ClosureV, ProcV};
use crate::datum::{Closure, Macro, Rule};
use crate::pattern::{name_in, name_seq, pattern_vars_ok, template_syms_ok};
use crate::vm::{
    body_instrs, emit_body, iv, iviews, tbl_find, tbl_put, tviews, DefineKind, Instruction,
    InstructionV, Machine,
};
use std::rc::Rc;
use vstd::prelude::*;

verus! {

pub const I64_MIN_INT: i64 = -0x8000_0000_0000_0000i64;

pub const I64_MAX_INT: i64 = 0x7fff_ffff_ffff_ffffi64;

/// Summing numbers left to right: a non-number is a type error, a partial
/// sum outside the 64-bit range a domain error.
pub open spec fn add_spec(v: Seq<DatumV>, i: int, acc: int) -> Result<int, RuntimeError>
    decreases v.len() - i,
{
    if i < 0 || i >= v.len() {
        Ok(acc)
    } else {
        match v[i] {
            DatumV::Num(n) => {
                if i64::MIN <= acc + n <= i64::MAX {
                    add_spec(v, i + 1, acc + n)
                } else {
                    Err(RuntimeError::Domain)
                }
            },
            _ => Err(RuntimeError::Type),
        }
    }
}

/// `(+ n ...)`: the sum of the arguments; no arguments give 0.
#[verifier::loop_isolation(false)]
pub fn native_add(args: &Vec<Datum>) -> (r: Result<Datum, RuntimeError>)
    ensures
        match add_spec(dviews(args@), 0, 0) {
            Ok(n) => r matches Ok(d) && d@ == DatumV::Num(n),
            Err(e) => r == Err::<Datum, RuntimeError>(e),
        },
{
    let ghost v = dviews(args@);
    let mut acc: i64 = 0;
    let mut i: usize = 0;
    while i < args.len()
        invariant
            i <= args@.len(),
            v == dviews(args@),
            add_spec(v, 0, 0) == add_spec(v, i as int, acc as int),
        decreases args@.len() - i,
    {
        proof {
            assert(v[i as int] == dv(args@[i as int]));
        }
        match &args[i] {
            Datum::Number(n) => {
                let s: i128 = acc as i128 + *n as i128;
                if s < I64_MIN_INT as i128 || s > I64_MAX_INT as i128 {
                    return Err(RuntimeError::Domain);
                }
                acc = s as i64;
            },
            Datum::Boolean(_) | Datum::Character(_) | Datum::Symbol(_) | Datum::Str(_)
                | Datum::EmptyList | Datum::Pair(_, _) | Datum::Vector(_, _)
                | Datum::Procedure(_) | Datum::SyntaxRule(_) | Datum::Ext(_) => {
                return Err(RuntimeError::Type);
            },
        }
        i = i + 1;
    }
    Ok(Datum::Number(acc))
}

/// Subtracting the rest from the first argument.
pub open spec fn sub_spec(v: Seq<DatumV>, i: int, acc: int) -> Result<int, RuntimeError>
    decreases v.len() - i,
{
    if i < 0 || i >= v.len() {
        Ok(acc)
    } else {
        match v[i] {
            DatumV::Num(n) => {
                if i64::MIN <= acc - n <= i64::MAX {
                    sub_spec(v, i + 1, acc - n)
                } else {
                    Err(RuntimeError::Domain)
                }
            },
            _ => Err(RuntimeError::Type),
        }
    }
}

/// The result of `(- n ...)`: the first argument minus the rest, and with
/// a single argument its negation.
pub open spec fn subtract_spec(v: Seq<DatumV>) -> Result<int, RuntimeError> {
    if v.len() == 0 {
        Err(RuntimeError::Arity)
    } else {
        match v[0] {
            DatumV::Num(first) => {
                match sub_spec(v, 1, first) {
                    Ok(d) => {
                        if v.len() == 1 {
                            if i64::MIN <= -d <= i64::MAX {
                                Ok(-d)
                            } else {
                                Err(RuntimeError::Domain)
                            }
                        } else {
                            Ok(d)
                        }
                    },
                    Err(e) => Err(e),
                }
            },
            _ => Err(RuntimeError::Type),
        }
    }
}

/// `(- n ...)`: subtraction, or negation for a single argument.
#[verifier::loop_isolation(false)]
pub fn native_subtract(args: &Vec<Datum>) -> (r: Result<Datum, RuntimeError>)
    ensures
        match subtract_spec(dviews(args@)) {
            Ok(n) => r matches Ok(d) && d@ == DatumV::Num(n),
            Err(e) => r == Err::<Datum, RuntimeError>(e),
        },
{
    let ghost v = dviews(args@);
    if args.len() == 0 {
        return Err(RuntimeError::Arity);
    }
    proof {
        assert(v[0] == dv(args@[0]));
    }
    let first = match &args[0] {
        Datum::Number(n) => *n,
        Datum::Boolean(_) | Datum::Character(_) | Datum::Symbol(_) | Datum::Str(_)
                | Datum::EmptyList | Datum::Pair(_, _) | Datum::Vector(_, _)
                | Datum::Procedure(_) | Datum::SyntaxRule(_) | Datum::Ext(_) => {
            return Err(RuntimeError::Type);
        },
    };
    let mut acc: i64 = first;
    let mut i: usize = 1;
    while i < args.len()
        invariant
            1 <= i <= args@.len(),
            v == dviews(args@),
            v.len() >= 1 && v[0] == DatumV::Num(first as int),
            sub_spec(v, 1, first as int) == sub_spec(v, i as int, acc as int),
        decreases args@.len() - i,
    {
        proof {
            assert(v[i as int] == dv(args@[i as int]));
        }
        match &args[i] {
            Datum::Number(n) => {
                let s: i128 = acc as i128 - *n as i128;
                if s < I64_MIN_INT as i128 || s > I64_MAX_INT as i128 {
                    return Err(RuntimeError::Domain);
                }
                acc = s as i64;
            },
            Datum::Boolean(_) | Datum::Character(_) | Datum::Symbol(_) | Datum::Str(_)
                | Datum::EmptyList | Datum::Pair(_, _) | Datum::Vector(_, _)
                | Datum::Procedure(_) | Datum::SyntaxRule(_) | Datum::Ext(_) => {
                return Err(RuntimeError::Type);
            },
        }
        i = i + 1;
    }
    if args.len() == 1 {
        let m: i128 = -(acc as i128);
        if m < I64_MIN_INT as i128 || m > I64_MAX_INT as i128 {
            return Err(RuntimeError::Domain);
        }
        Ok(Datum::Number(m as i64))
    } else {
        Ok(Datum::Number(acc))
    }
}

/// Multiplying numbers left to right.
pub open spec fn mul_spec(v: Seq<DatumV>, i: int, acc: int) -> Result<int, RuntimeError>
    decreases v.len() - i,
{
    if i < 0 || i >= v.len() {
        Ok(acc)
    } else {
        match v[i] {
            DatumV::Num(n) => {
                if i64::MIN <= acc * n <= i64::MAX {
                    mul_spec(v, i + 1, acc * n)
                } else {
                    Err(RuntimeError::Domain)
                }
            },
            _ => Err(RuntimeError::Type),
        }
    }
}

proof fn lemma_i64_product_bounded(a: i128, b: i128)
    by (nonlinear_arith)
    requires
        -0x8000_0000_0000_0000i128 <= a <= 0x7fff_ffff_ffff_ffffi128,
        -0x8000_0000_0000_0000i128 <= b <= 0x7fff_ffff_ffff_ffffi128,
    ensures
        -0x4000_0000_0000_0000_0000_0000_0000_0000i128 <= a * b
            <= 0x4000_0000_0000_0000_0000_0000_0000_0000i128,
{
}

/// `(* n ...)`: the product of the arguments; no arguments give 1.
#[verifier::loop_isolation(false)]
pub fn native_multiply(args: &Vec<Datum>) -> (r: Result<Datum, RuntimeError>)
    ensures
        match mul_spec(dviews(args@), 0, 1) {
            Ok(n) => r matches Ok(d) && d@ == DatumV::Num(n),
            Err(e) => r == Err::<Datum, RuntimeError>(e),
        },
{
    let ghost v = dviews(args@);
    let mut acc: i64 = 1;
    let mut i: usize = 0;
    while i < args.len()
        invariant
            i <= args@.len(),
            v == dviews(args@),
            mul_spec(v, 0, 1) == mul_spec(v, i as int, acc as int),
        decreases args@.len() - i,
    {
        proof {
            assert(v[i as int] == dv(args@[i as int]));
        }
        match &args[i] {
            Datum::Number(n) => {
                let a128: i128 = acc as i128;
                let n128: i128 = *n as i128;
                proof {
                    lemma_i64_product_bounded(a128, n128);
                }
                let s: i128 = a128 * n128;
                if s < I64_MIN_INT as i128 || s > I64_MAX_INT as i128 {
                    return Err(RuntimeError::Domain);
                }
                acc = s as i64;
            },
            Datum::Boolean(_) | Datum::Character(_) | Datum::Symbol(_) | Datum::Str(_)
                | Datum::EmptyList | Datum::Pair(_, _) | Datum::Vector(_, _)
                | Datum::Procedure(_) | Datum::SyntaxRule(_) | Datum::Ext(_) => {
                return Err(RuntimeError::Type);
            },
        }
        i = i + 1;
    }
    Ok(Datum::Number(acc))
}

/// Whether every argument is the same number as the first; a non-number
/// anywhere is a type error.
pub open spec fn numeq_spec(v: Seq<DatumV>, i: int, first: int, res: bool) -> Result<
    bool,
    RuntimeError,
>
    decreases v.len() - i,
{
    if i < 0 || i >= v.len() {
        Ok(res)
    } else {
        match v[i] {
            DatumV::Num(n) => numeq_spec(v, i + 1, first, res && n == first),
            _ => Err(RuntimeError::Type),
        }
    }
}

/// The result of `(= n ...)`.
pub open spec fn equals_spec(v: Seq<DatumV>) -> Result<bool, RuntimeError> {
    if v.len() == 0 {
        Ok(true)
    } else {
        match v[0] {
            DatumV::Num(first) => numeq_spec(v, 1, first, true),
            _ => Err(RuntimeError::Type),
        }
    }
}

/// `(= n ...)`: numeric equality of all arguments; zero or one argument
/// gives `#t`.
#[verifier::loop_isolation(false)]
pub fn native_equals(args: &Vec<Datum>) -> (r: Result<Datum, RuntimeError>)
    ensures
        match equals_spec(dviews(args@)) {
            Ok(b) => r matches Ok(d) && d@ == DatumV::Bool(b),
            Err(e) => r == Err::<Datum, RuntimeError>(e),
        },
{
    let ghost v = dviews(args@);
    if args.len() == 0 {
        return Ok(Datum::Boolean(true));
    }
    proof {
        assert(v[0] == dv(args@[0]));
    }
    let first = match &args[0] {
        Datum::Number(n) => *n,
        Datum::Boolean(_) | Datum::Character(_) | Datum::Symbol(_) | Datum::Str(_)
                | Datum::EmptyList | Datum::Pair(_, _) | Datum::Vector(_, _)
                | Datum::Procedure(_) | Datum::SyntaxRule(_) | Datum::Ext(_) => {
            return Err(RuntimeError::Type);
        },
    };
    let mut res = true;
    let mut i: usize = 1;
    while i < args.len()
        invariant
            1 <= i <= args@.len(),
            v == dviews(args@),
            v.len() >= 1 && v[0] == DatumV::Num(first as int),
            numeq_spec(v, 1, first as int, true) == numeq_spec(v, i as int, first as int, res),
        decreases args@.len() - i,
    {
        proof {
            assert(v[i as int] == dv(args@[i as int]));
        }
        match &args[i] {
            Datum::Number(n) => {
                res = res && (*n == first);
            },
            Datum::Boolean(_) | Datum::Character(_) | Datum::Symbol(_) | Datum::Str(_)
                | Datum::EmptyList | Datum::Pair(_, _) | Datum::Vector(_, _)
                | Datum::Procedure(_) | Datum::SyntaxRule(_) | Datum::Ext(_) => {
                return Err(RuntimeError::Type);
            },
        }
        i = i + 1;
    }
    Ok(Datum::Boolean(res))
}

/// `(cons a b)`.
#[verifier::loop_isolation(false)]
pub fn native_cons(args: &Vec<Datum>) -> (r: Result<Datum, RuntimeError>)
    ensures
        match r {
            Ok(d) => args@.len() == 2 && d@ == DatumV::Pair(
                Box::new(args@[0]@),
                Box::new(args@[1]@),
            ),
            Err(e) => args@.len() != 2 && e == RuntimeError::Arity,
        },
{
    if args.len() != 2 {
        return Err(RuntimeError::Arity);
    }
    Ok(Datum::pair(args[0].clone(), args[1].clone()))
}

/// `(car p)`: the head of a pair.
#[verifier::loop_isolation(false)]
pub fn native_car(args: &Vec<Datum>) -> (r: Result<Datum, RuntimeError>)
    ensures
        match r {
            Ok(d) => args@.len() == 1 && (args@[0]@ matches DatumV::Pair(a, _) && d@ == *a),
            Err(e) => {
                if args@.len() != 1 {
                    e == RuntimeError::Arity
                } else {
                    !(args@[0]@ is Pair) && e == RuntimeError::Type
                }
            },
        },
{
    if args.len() != 1 {
        return Err(RuntimeError::Arity);
    }
    match &args[0] {
        Datum::Pair(a, _) => Ok((**a).clone()),
        Datum::Boolean(_) | Datum::Number(_) | Datum::Character(_) | Datum::Symbol(_)
            | Datum::Str(_) | Datum::EmptyList | Datum::Vector(_, _) | Datum::Procedure(_)
            | Datum::SyntaxRule(_) | Datum::Ext(_) => Err(RuntimeError::Type),
    }
}

/// `(cdr p)`: the tail of a pair.
#[verifier::loop_isolation(false)]
pub fn native_cdr(args: &Vec<Datum>) -> (r: Result<Datum, RuntimeError>)
    ensures
        match r {
            Ok(d) => args@.len() == 1 && (args@[0]@ matches DatumV::Pair(_, b) && d@ == *b),
            Err(e) => {
                if args@.len() != 1 {
                    e == RuntimeError::Arity
                } else {
                    !(args@[0]@ is Pair) && e == RuntimeError::Type
                }
            },
        },
{
    if args.len() != 1 {
        return Err(RuntimeError::Arity);
    }
    match &args[0] {
        Datum::Pair(_, b) => Ok((**b).clone()),
        Datum::Boolean(_) | Datum::Number(_) | Datum::Character(_) | Datum::Symbol(_)
            | Datum::Str(_) | Datum::EmptyList | Datum::Vector(_, _) | Datum::Procedure(_)
            | Datum::SyntaxRule(_) | Datum::Ext(_) => Err(RuntimeError::Type),
    }
}

/// `(list x ...)`: the proper list of the arguments.
#[verifier::loop_isolation(false)]
pub fn native_list(args: &Vec<Datum>) -> (r: Result<Datum, RuntimeError>)
    ensures
        r matches Ok(d) && d@ == list_of(dviews(args@)),
{
    let mut elems: Vec<Datum> = Vec::new();
    let mut i: usize = 0;
    while i < args.len()
        invariant
            i <= args@.len(),
            dviews(elems@) =~= dviews(args@).subrange(0, i as int),
        decreases args@.len() - i,
    {
        let ghost pre = elems@;
        elems.push(args[i].clone());
        proof {
            assert(dviews(elems@) =~= dviews(pre).push(dv(args@[i as int])));
            assert(dviews(args@)[i as int] == dv(args@[i as int]));
            assert(dviews(elems@) =~= dviews(args@).subrange(0, i + 1));
        }
        i = i + 1;
    }
    proof {
        assert(dviews(args@).subrange(0, args@.len() as int) =~= dviews(args@));
    }
    Ok(Datum::list(elems))
}

/// `(length xs)`: the element count of a proper list.
#[verifier::loop_isolation(false)]
pub fn native_length(args: &Vec<Datum>) -> (r: Result<Datum, RuntimeError>)
    ensures
        match r {
            Ok(d) => args@.len() == 1 && is_proper(args@[0]@) && d@ == DatumV::Num(
                flat_elems(args@[0]@).len() as int,
            ),
            Err(e) => {
                if args@.len() != 1 {
                    e == RuntimeError::Arity
                } else if !is_proper(args@[0]@) {
                    e == RuntimeError::Type
                } else {
                    flat_elems(args@[0]@).len() > i64::MAX && e == RuntimeError::Domain
                }
            },
        },
{
    if args.len() != 1 {
        return Err(RuntimeError::Arity);
    }
    let elems = args[0].to_vec()?;
    if elems.len() as u64 > I64_MAX_INT as u64 {
        return Err(RuntimeError::Domain);
    }
    proof {
        assert(dviews(elems@).len() == elems@.len());
    }
    Ok(Datum::Number(elems.len() as i64))
}

/// `(null? x)`.
#[verifier::loop_isolation(false)]
pub fn native_null_p(args: &Vec<Datum>) -> (r: Result<Datum, RuntimeError>)
    ensures
        match r {
            Ok(d) => args@.len() == 1 && d@ == DatumV::Bool(args@[0]@ is Nil),
            Err(e) => args@.len() != 1 && e == RuntimeError::Arity,
        },
{
    if args.len() != 1 {
        return Err(RuntimeError::Arity);
    }
    Ok(Datum::Boolean(crate::pattern::is_empty_list(&args[0])))
}

/// `(reverse xs)`: the reversed proper list; the argument must be a list.
#[verifier::loop_isolation(false)]
pub fn native_reverse(args: &Vec<Datum>) -> (r: Result<Datum, RuntimeError>)
    ensures
        match r {
            Ok(d) => args@.len() == 1 && (args@[0]@ is Nil || args@[0]@ is Pair) && d@ == list_of(
                flat_elems(args@[0]@).reverse(),
            ),
            Err(e) => {
                if args@.len() != 1 {
                    e == RuntimeError::Arity
                } else {
                    !(args@[0]@ is Nil) && !(args@[0]@ is Pair) && e == RuntimeError::Type
                }
            },
        },
{
    if args.len() != 1 {
        return Err(RuntimeError::Arity);
    }
    match &args[0] {
        Datum::EmptyList | Datum::Pair(_, _) => Ok(args[0].reverse()),
        Datum::Boolean(_) | Datum::Number(_) | Datum::Character(_) | Datum::Symbol(_)
            | Datum::Str(_) | Datum::Vector(_, _) | Datum::Procedure(_) | Datum::SyntaxRule(_)
            | Datum::Ext(_) => Err(RuntimeError::Type),
    }
}

/// Concatenating the elements of all arguments but the last, which must be
/// proper lists; the final argument becomes the tail.
pub open spec fn append_spec(v: Seq<DatumV>, i: int, acc: Seq<DatumV>) -> Result<
    Seq<DatumV>,
    RuntimeError,
>
    decreases v.len() - i,
{
    if i < 0 || i >= v.len() - 1 {
        Ok(acc + seq![v[v.len() - 1]])
    } else {
        if is_proper(v[i]) {
            append_spec(v, i + 1, acc + flat_elems(v[i]))
        } else {
            Err(RuntimeError::Type)
        }
    }
}

/// `(append xs ... last)`: all but the last argument must be proper lists;
/// the last is attached as the final tail.
#[verifier::loop_isolation(false)]
pub fn native_append(args: &Vec<Datum>) -> (r: Result<Datum, RuntimeError>)
    ensures
        args@.len() == 0 ==> (r matches Ok(d) && d@ == DatumV::Nil),
        args@.len() >= 1 ==> match append_spec(dviews(args@), 0, Seq::empty()) {
            Ok(s) => r matches Ok(d) && d@ == improper_of(s),
            Err(e) => r == Err::<Datum, RuntimeError>(e),
        },
{
    let ghost v = dviews(args@);
    if args.len() == 0 {
        return Ok(Datum::EmptyList);
    }
    let mut result: Vec<Datum> = Vec::new();
    let mut i: usize = 0;
    while i < args.len() - 1
        invariant
            args@.len() >= 1,
            i <= args@.len() - 1,
            v == dviews(args@),
            append_spec(v, 0, Seq::empty()) == append_spec(v, i as int, dviews(result@)),
        decreases args@.len() - 1 - i,
    {
        proof {
            assert(v[i as int] == dv(args@[i as int]));
        }
        let elems = args[i].to_vec()?;
        let ghost pre = dviews(result@);
        let mut j: usize = 0;
        while j < elems.len()
            invariant
                j <= elems@.len(),
                dviews(result@) =~= pre + dviews(elems@).subrange(0, j as int),
            decreases elems@.len() - j,
        {
            let ghost mid = result@;
            result.push(elems[j].clone());
            proof {
                assert(dviews(result@) =~= dviews(mid).push(dv(elems@[j as int])));
                assert(dviews(elems@)[j as int] == dv(elems@[j as int]));
                assert(dviews(result@) =~= pre + dviews(elems@).subrange(0, j + 1));
            }
            j = j + 1;
        }
        proof {
            assert(dviews(elems@).subrange(0, elems@.len() as int) =~= dviews(elems@));
            assert(dviews(result@) =~= pre + flat_elems(v[i as int]));
        }
        i = i + 1;
    }
    let ghost pre = dviews(result@);
    result.push(args[args.len() - 1].clone());
    proof {
        assert(dviews(result@) =~= pre.push(dv(args@[args@.len() - 1])));
        assert(v[v.len() - 1] == dv(args@[args@.len() - 1]));
        assert(dviews(result@) =~= pre + seq![v[v.len() - 1]]);
    }
    Ok(Datum::improper_list(result))
}

/// `(equal? a b)`: structural equality.
#[verifier::loop_isolation(false)]
pub fn native_equal_p(args: &Vec<Datum>) -> (r: Result<Datum, RuntimeError>)
    ensures
        match r {
            Ok(d) => args@.len() == 2 && d@ == DatumV::Bool(equal_spec(args@[0]@, args@[1]@)),
            Err(e) => args@.len() != 2 && e == RuntimeError::Arity,
        },
{
    if args.len() != 2 {
        return Err(RuntimeError::Arity);
    }
    Ok(Datum::Boolean(datum_equal(&args[0], &args[1])))
}

/// `(eqv? a b)` and `(eq? a b)`: identity equality.
#[verifier::loop_isolation(false)]
pub fn native_eqv_p(args: &Vec<Datum>) -> (r: Result<Datum, RuntimeError>)
    ensures
        match r {
            Ok(d) => args@.len() == 2 && d@ == DatumV::Bool(eqv_spec(args@[0]@, args@[1]@)),
            Err(e) => args@.len() != 2 && e == RuntimeError::Arity,
        },
{
    if args.len() != 2 {
        return Err(RuntimeError::Arity);
    }
    Ok(Datum::Boolean(datum_eqv(&args[0], &args[1])))
}

/// Keys whose variant is a procedure, a syntax rule or a host object are
/// not hashable.
pub open spec fn hashable_key(v: DatumV) -> bool {
    !(v is Proc) && !(v is Syntax) && !(v is Ext)
}

/// Whether a datum may be used as a hash-table key.
#[verifier::loop_isolation(false)]
pub fn key_hashable(d: &Datum) -> (r: bool)
    ensures
        r == hashable_key(d@),
{
    match d {
        Datum::Procedure(_) => false,
        Datum::SyntaxRule(_) => false,
        Datum::Ext(_) => false,
        Datum::Boolean(_) | Datum::Number(_) | Datum::Character(_) | Datum::Symbol(_)
            | Datum::Str(_) | Datum::EmptyList | Datum::Pair(_, _) | Datum::Vector(_, _) => true,
    }
}

/// `(make-hash-table)`: a fresh empty table, handed out as an `Ext`
/// handle.
#[verifier::loop_isolation(false)]
pub fn native_make_hash_table(mach: &mut Machine, args: &Vec<Datum>) -> (r: Result<
    Datum,
    RuntimeError,
>)
    ensures
        final(mach).envs == old(mach).envs,
        match r {
            Ok(d) => {
                &&& args@.len() == 0
                &&& d@ == DatumV::Ext(old(mach).tables@.len() as nat)
                &&& final(mach).tables@.len() == old(mach).tables@.len() + 1
                &&& tviews(final(mach).tables@[old(mach).tables@.len() as int]@)
                    =~= Seq::<(DatumV, DatumV)>::empty()
                &&& forall|i: int|
                    0 <= i < old(mach).tables@.len() ==> final(mach).tables@[i] == old(mach).tables@[i]
            },
            Err(e) => args@.len() != 0 && e == RuntimeError::Arity && final(mach).tables == old(mach).tables,
        },
{
    if args.len() != 0 {
        return Err(RuntimeError::Arity);
    }
    let id = mach.tables.len();
    mach.tables.push(Vec::new());
    proof {
        assert(tviews(mach.tables@[id as int]@) =~= Seq::<(DatumV, DatumV)>::empty());
    }
    Ok(Datum::Ext(id as u64))
}

/// `(hash-ref h k)`: the stored value, or `#f` when the key is absent or
/// unhashable.
#[verifier::loop_isolation(false)]
pub fn native_hash_ref(mach: &Machine, args: &Vec<Datum>) -> (r: Result<Datum, RuntimeError>)
    ensures
        match r {
            Ok(d) => {
                &&& args@.len() == 2
                &&& args@[0]@ matches DatumV::Ext(h)
                &&& args@[0]@->Ext_0 < mach.tables@.len()
                &&& (if !hashable_key(args@[1]@) {
                    d@ == DatumV::Bool(false)
                } else {
                    match tbl_find(tviews(mach.tables@[args@[0]@->Ext_0 as int]@), args@[1]@) {
                        Some(v) => d@ == v,
                        None => d@ == DatumV::Bool(false),
                    }
                })
            },
            Err(e) => {
                if args@.len() != 2 {
                    e == RuntimeError::Arity
                } else if !(args@[0]@ is Ext) {
                    e == RuntimeError::Type
                } else {
                    e == RuntimeError::Internal && args@[0]@->Ext_0 >= mach.tables@.len()
                }
            },
        },
{
    if args.len() != 2 {
        return Err(RuntimeError::Arity);
    }
    let h: usize = match &args[0] {
        Datum::Ext(id) => {
            if *id > usize::MAX as u64 {
                proof {
                    assert(vstd::std_specs::vec::spec_vec_len(&mach.tables)
                        == mach.tables@.len());
                }
                return Err(RuntimeError::Internal);
            }
            *id as usize
        },
        Datum::Boolean(_) | Datum::Number(_) | Datum::Character(_) | Datum::Symbol(_)
            | Datum::Str(_) | Datum::EmptyList | Datum::Pair(_, _) | Datum::Vector(_, _)
            | Datum::Procedure(_) | Datum::SyntaxRule(_) => {
            return Err(RuntimeError::Type);
        },
    };
    if h >= mach.tables.len() {
        return Err(RuntimeError::Internal);
    }
    if !key_hashable(&args[1]) {
        return Ok(Datum::Boolean(false));
    }
    let table = &mach.tables[h];
    let ghost tv = tviews(table@);
    proof {
        assert(tv.skip(0) =~= tv);
    }
    let mut i: usize = 0;
    while i < table.len()
        invariant
            args@.len() == 2,
            i <= table@.len(),
            h < mach.tables@.len(),
            table == &mach.tables[h as int],
            args@[0]@ == DatumV::Ext(h as nat),
            hashable_key(args@[1]@),
            tv == tviews(table@),
            tbl_find(tv, args@[1]@) == tbl_find(tv.skip(i as int), args@[1]@),
        decreases table@.len() - i,
    {
        proof {
            assert(tv[i as int] == (dv(table@[i as int].0), dv(table@[i as int].1)));
            assert(tv.skip(i as int)[0] == tv[i as int]);
            assert(tv.skip(i as int).drop_first() =~= tv.skip(i + 1));
        }
        if datum_equal(&table[i].0, &args[1]) {
            return Ok(table[i].1.clone());
        }
        i = i + 1;
    }
    proof {
        assert(tv.skip(table@.len() as int) =~= Seq::<(DatumV, DatumV)>::empty());
    }
    Ok(Datum::Boolean(false))
}

/// `(hash-set! h k v)`: stores the value under the key and returns the
/// value; unhashable keys are refused.
pub fn native_hash_set(mach: &mut Machine, args: &Vec<Datum>) -> (r: Result<Datum, RuntimeError>)
    ensures
        final(mach).envs == old(mach).envs,
        match r {
            Ok(d) => {
                &&& args@.len() == 3
                &&& args@[0]@ matches DatumV::Ext(h)
                &&& hashable_key(args@[1]@)
                &&& d@ == args@[2]@
                &&& final(mach).tables@.len() == old(mach).tables@.len()
                &&& 0 <= args@[0]@->Ext_0 < old(mach).tables@.len()
                &&& tviews(final(mach).tables@[args@[0]@->Ext_0 as int]@) == tbl_put(
                    tviews(old(mach).tables@[args@[0]@->Ext_0 as int]@),
                    args@[1]@,
                    args@[2]@,
                )
                &&& forall|i: int|
                    0 <= i < old(mach).tables@.len() && i != args@[0]@->Ext_0 as int ==> final(mach).tables@[i] == old(mach).tables@[i]
            },
            Err(e) => {
                final(mach).tables == old(mach).tables && (if args@.len() != 3 {
                    e == RuntimeError::Arity
                } else if !(args@[0]@ is Ext) {
                    e == RuntimeError::Type
                } else if !hashable_key(args@[1]@) {
                    e == RuntimeError::UnsupportedKey
                } else {
                    e == RuntimeError::Internal && args@[0]@->Ext_0 >= old(mach).tables@.len()
                })
            },
        },
{
    if args.len() != 3 {
        return Err(RuntimeError::Arity);
    }
    let id64: u64 = match &args[0] {
        Datum::Ext(id) => *id,
        Datum::Boolean(_) | Datum::Number(_) | Datum::Character(_) | Datum::Symbol(_)
            | Datum::Str(_) | Datum::EmptyList | Datum::Pair(_, _) | Datum::Vector(_, _)
            | Datum::Procedure(_) | Datum::SyntaxRule(_) => {
            return Err(RuntimeError::Type);
        },
    };
    if !key_hashable(&args[1]) {
        return Err(RuntimeError::UnsupportedKey);
    }
    if id64 > usize::MAX as u64 {
        proof {
            assert(vstd::std_specs::vec::spec_vec_len(&mach.tables) == mach.tables@.len());
        }
        return Err(RuntimeError::Internal);
    }
    let h: usize = id64 as usize;
    if h >= mach.tables.len() {
        return Err(RuntimeError::Internal);
    }
    let ghost tv0 = tviews(mach.tables@[h as int]@);
    let mut found: Option<usize> = None;
    let table = &mach.tables[h];
    let mut i: usize = 0;
    while i < table.len()
        invariant_except_break
            found is None,
            forall|j: int| 0 <= j < i ==> !equal_spec(tv0[j].0, args@[1]@),
        invariant
            args@.len() == 3,
            i <= table@.len(),
            tv0 == tviews(table@),
        ensures
            match found {
                Some(k) => 0 <= k < tv0.len() && equal_spec(tv0[k as int].0, args@[1]@)
                    && forall|j: int| 0 <= j < k ==> !equal_spec(tv0[j].0, args@[1]@),
                None => forall|j: int| 0 <= j < tv0.len() ==> !equal_spec(tv0[j].0, args@[1]@),
            },
        decreases table@.len() - i,
    {
        proof {
            assert(tv0[i as int] == (dv(table@[i as int].0), dv(table@[i as int].1)));
        }
        if datum_equal(&table[i].0, &args[1]) {
            found = Some(i);
            break;
        }
        i = i + 1;
    }
    let ghost key = args@[1]@;
    let ghost val = args@[2]@;
    match found {
        Some(k) => {
            proof {
                assert(equal_spec(tv0[k as int].0, key));
                lemma_tbl_put_update(tv0, key, val, k as int);
            }
            let key_d = mach.tables[h][k].0.clone();
            let v = args[2].clone();
            let t = &mut mach.tables[h];
            t[k] = (key_d, v);
            proof {
                assert(tviews(mach.tables@[h as int]@) =~= tv0.update(
                    k as int,
                    (tv0[k as int].0, val),
                ));
            }
        },
        None => {
            proof {
                lemma_tbl_put_append(tv0, key, val);
            }
            let kd = args[1].clone();
            let v = args[2].clone();
            let t = &mut mach.tables[h];
            t.push((kd, v));
            proof {
                assert(tviews(mach.tables@[h as int]@) =~= tv0.push((key, val)));
            }
        },
    }
    Ok(args[2].clone())
}

proof fn lemma_tbl_put_update(s: Seq<(DatumV, DatumV)>, k: DatumV, v: DatumV, i: int)
    requires
        0 <= i < s.len(),
        equal_spec(s[i].0, k),
        forall|j: int| 0 <= j < i ==> !equal_spec(s[j].0, k),
    ensures
        tbl_put(s, k, v) == s.update(i, (s[i].0, v)),
    decreases i,
{
    if i == 0 {
        assert(tbl_put(s, k, v) == seq![(s[0].0, v)] + s.drop_first());
        assert(seq![(s[0].0, v)] + s.drop_first() =~= s.update(0, (s[0].0, v)));
    } else {
        assert(!equal_spec(s[0].0, k));
        assert(s.drop_first()[i - 1] == s[i]);
        assert forall|j: int| 0 <= j < i - 1 implies !equal_spec(s.drop_first()[j].0, k) by {
            assert(s.drop_first()[j] == s[j + 1]);
        }
        lemma_tbl_put_update(s.drop_first(), k, v, i - 1);
        assert(seq![s[0]] + s.drop_first().update(i - 1, (s[i].0, v)) =~= s.update(
            i,
            (s[i].0, v),
        ));
    }
}

proof fn lemma_tbl_put_append(s: Seq<(DatumV, DatumV)>, k: DatumV, v: DatumV)
    requires
        forall|j: int| 0 <= j < s.len() ==> !equal_spec(s[j].0, k),
    ensures
        tbl_put(s, k, v) == s.push((k, v)),
    decreases s.len(),
{
    if s.len() == 0 {
        assert(tbl_put(s, k, v) =~= s.push((k, v)));
    } else {
        assert forall|j: int| 0 <= j < s.drop_first().len() implies !equal_spec(
            s.drop_first()[j].0,
            k,
        ) by {
            assert(s.drop_first()[j] == s[j + 1]);
        }
        lemma_tbl_put_append(s.drop_first(), k, v);
        assert(seq![s[0]] + s.drop_first().push((k, v)) =~= s.push((k, v)));
    }
}

/// The characters of a string as character datums.
pub open spec fn char_datums(s: Seq<char>) -> Seq<DatumV> {
    Seq::new(s.len(), |i: int| DatumV::Char(s[i]))
}

/// String segments as string datums.
pub open spec fn seg_datums(ss: Seq<Seq<char>>) -> Seq<DatumV> {
    Seq::new(ss.len(), |i: int| DatumV::Str(ss[i]))
}

/// The character payloads of a sequence of character datums.
pub open spec fn datum_chars(ev: Seq<DatumV>) -> Seq<char> {
    Seq::new(ev.len(), |i: int| ev[i]->Char_0)
}

/// Extracts the characters of a string argument.
#[verifier::loop_isolation(false)]
fn expect_str(d: &Datum) -> (r: Result<Rc<Vec<char>>, RuntimeError>)
    ensures
        match r {
            Ok(v) => d@ matches DatumV::Str(x) && v@ == x,
            Err(e) => !(d@ is Str) && e == RuntimeError::Type,
        },
{
    match d {
        Datum::Str(v) => Ok(rc_clone(v)),
        Datum::Boolean(_) | Datum::Number(_) | Datum::Character(_) | Datum::Symbol(_)
            | Datum::EmptyList | Datum::Pair(_, _) | Datum::Vector(_, _) | Datum::Procedure(_)
            | Datum::SyntaxRule(_) | Datum::Ext(_) => Err(RuntimeError::Type),
    }
}

/// `(string-length s)`: the number of characters.
#[verifier::loop_isolation(false)]
pub fn native_string_length(args: &Vec<Datum>) -> (r: Result<Datum, RuntimeError>)
    ensures
        match r {
            Ok(d) => args@.len() == 1 && (args@[0]@ matches DatumV::Str(x) && d@ == DatumV::Num(
                x.len() as int,
            )),
            Err(e) => {
                if args@.len() != 1 {
                    e == RuntimeError::Arity
                } else if !(args@[0]@ is Str) {
                    e == RuntimeError::Type
                } else {
                    e == RuntimeError::Domain && args@[0]@->Str_0.len() > i64::MAX
                }
            },
        },
{
    if args.len() != 1 {
        return Err(RuntimeError::Arity);
    }
    let v = expect_str(&args[0])?;
    if v.len() as u64 > I64_MAX_INT as u64 {
        return Err(RuntimeError::Domain);
    }
    Ok(Datum::Number(v.len() as i64))
}

/// `(string-append s1 s2)`: the concatenation of two strings.
#[verifier::loop_isolation(false)]
pub fn native_string_append(args: &Vec<Datum>) -> (r: Result<Datum, RuntimeError>)
    ensures
        match r {
            Ok(d) => args@.len() == 2 && (args@[0]@ matches DatumV::Str(x) && (args@[1]@ matches
                DatumV::Str(y) && d@ == DatumV::Str(x + y))),
            Err(e) => {
                if args@.len() != 2 {
                    e == RuntimeError::Arity
                } else {
                    (!(args@[0]@ is Str) || !(args@[1]@ is Str)) && e == RuntimeError::Type
                }
            },
        },
{
    if args.len() != 2 {
        return Err(RuntimeError::Arity);
    }
    let a = expect_str(&args[0])?;
    let b = expect_str(&args[1])?;
    let mut out = copy_name(&a);
    let mut i: usize = 0;
    while i < b.len()
        invariant
            i <= b@.len(),
            out@ =~= a@ + b@.subrange(0, i as int),
        decreases b@.len() - i,
    {
        out.push(b[i]);
        proof {
            assert(out@ =~= a@ + b@.subrange(0, i + 1));
        }
        i = i + 1;
    }
    proof {
        assert(b@.subrange(0, b@.len() as int) =~= b@);
    }
    Ok(Datum::Str(Rc::new(out)))
}

/// `(string=? s1 s2)`: content equality of two strings.
#[verifier::loop_isolation(false)]
pub fn native_string_equal_p(args: &Vec<Datum>) -> (r: Result<Datum, RuntimeError>)
    ensures
        match r {
            Ok(d) => args@.len() == 2 && (args@[0]@ matches DatumV::Str(x) && (args@[1]@ matches
                DatumV::Str(y) && d@ == DatumV::Bool(x == y))),
            Err(e) => {
                if args@.len() != 2 {
                    e == RuntimeError::Arity
                } else {
                    (!(args@[0]@ is Str) || !(args@[1]@ is Str)) && e == RuntimeError::Type
                }
            },
        },
{
    if args.len() != 2 {
        return Err(RuntimeError::Arity);
    }
    let a = expect_str(&args[0])?;
    let b = expect_str(&args[1])?;
    Ok(Datum::Boolean(crate::environment::names_eq(&a, &b)))
}

/// Whether the needle occurs in the haystack starting at `i`.
pub open spec fn is_match_at(h: Seq<char>, n: Seq<char>, i: int) -> bool {
    0 <= i && i + n.len() <= h.len() && h.subrange(i, i + n.len()) == n
}

/// Character-wise test of a match at one position.
#[verifier::loop_isolation(false)]
fn match_at(h: &Vec<char>, n: &Vec<char>, i: usize) -> (r: bool)
    requires
        i + n@.len() <= h@.len(),
    ensures
        r == is_match_at(h@, n@, i as int),
{
    proof {
        assert(vstd::std_specs::vec::spec_vec_len(h) == h@.len());
        assert(vstd::std_specs::vec::spec_vec_len(n) == n@.len());
    }
    let mut j: usize = 0;
    while j < n.len()
        invariant
            j <= n@.len(),
            i + n@.len() <= h@.len(),
            forall|x: int| 0 <= x < j ==> h@[i + x] == n@[x],
        decreases n@.len() - j,
    {
        if h[i + j] != n[j] {
            proof {
                assert(h@.subrange(i as int, i + n@.len())[j as int] == h@[i + j]);
            }
            return false;
        }
        j = j + 1;
    }
    proof {
        assert(h@.subrange(i as int, i + n@.len()) =~= n@);
    }
    true
}

/// `(string-contains s1 s2)`: the first index at which `s2` occurs in
/// `s1`, or `#f`.
#[verifier::loop_isolation(false)]
pub fn native_string_contains(args: &Vec<Datum>) -> (r: Result<Datum, RuntimeError>)
    ensures
        match r {
            Ok(d) => args@.len() == 2 && (args@[0]@ matches DatumV::Str(h) && (args@[1]@ matches
                DatumV::Str(n) && (match d@ {
                DatumV::Num(i) => is_match_at(h, n, i) && (forall|j: int|
                    0 <= j < i ==> !is_match_at(h, n, j)),
                DatumV::Bool(b) => !b && (forall|j: int| !is_match_at(h, n, j)),
                _ => false,
            }))),
            Err(e) => {
                if args@.len() != 2 {
                    e == RuntimeError::Arity
                } else if !(args@[0]@ is Str) || !(args@[1]@ is Str) {
                    e == RuntimeError::Type
                } else {
                    e == RuntimeError::Domain && args@[0]@->Str_0.len() > i64::MAX
                }
            },
        },
{
    if args.len() != 2 {
        return Err(RuntimeError::Arity);
    }
    let h = expect_str(&args[0])?;
    let n = expect_str(&args[1])?;
    if n.len() == 0 {
        proof {
            assert(h@.subrange(0, 0) =~= n@);
            assert(is_match_at(h@, n@, 0));
        }
        return Ok(Datum::Number(0));
    }
    if n.len() > h.len() {
        proof {
            assert forall|j: int| !is_match_at(h@, n@, j) by {}
        }
        return Ok(Datum::Boolean(false));
    }
    let last = h.len() - n.len();
    let mut i: usize = 0;
    while i <= last
        invariant
            n@.len() <= h@.len(),
            last == h@.len() - n@.len(),
            i <= last + 1,
            forall|j: int| 0 <= j < i ==> !is_match_at(h@, n@, j),
        decreases last + 1 - i,
    {
        if match_at(&h, &n, i) {
            if i as u64 > I64_MAX_INT as u64 {
                return Err(RuntimeError::Domain);
            }
            return Ok(Datum::Number(i as i64));
        }
        i = i + 1;
    }
    proof {
        assert forall|j: int| !is_match_at(h@, n@, j) by {
            if 0 <= j <= last {
                assert(!is_match_at(h@, n@, j));
            }
        }
    }
    Ok(Datum::Boolean(false))
}

/// `(string-prefix? p s)`: whether `s` starts with `p`.
#[verifier::loop_isolation(false)]
pub fn native_string_prefix_p(args: &Vec<Datum>) -> (r: Result<Datum, RuntimeError>)
    ensures
        match r {
            Ok(d) => args@.len() == 2 && (args@[0]@ matches DatumV::Str(p) && (args@[1]@ matches
                DatumV::Str(x) && d@ == DatumV::Bool(is_match_at(x, p, 0)))),
            Err(e) => {
                if args@.len() != 2 {
                    e == RuntimeError::Arity
                } else {
                    (!(args@[0]@ is Str) || !(args@[1]@ is Str)) && e == RuntimeError::Type
                }
            },
        },
{
    if args.len() != 2 {
        return Err(RuntimeError::Arity);
    }
    let p = expect_str(&args[0])?;
    let x = expect_str(&args[1])?;
    if p.len() > x.len() {
        return Ok(Datum::Boolean(false));
    }
    Ok(Datum::Boolean(match_at(&x, &p, 0)))
}

/// Splitting at every occurrence of a character.
pub open spec fn split_spec(s: Seq<char>, c: char) -> Seq<Seq<char>>
    decreases s.len(),
{
    let i = first_char_at(s, c);
    if 0 <= i < s.len() {
        seq![s.subrange(0, i)] + split_spec(s.subrange(i + 1, s.len() as int), c)
    } else {
        seq![s]
    }
}

/// The first position of a character, or -1.
pub open spec fn first_char_at(s: Seq<char>, c: char) -> int
    decreases s.len(),
{
    if s.len() == 0 {
        -1
    } else if s[0] == c {
        0
    } else {
        let r = first_char_at(s.drop_first(), c);
        if r < 0 {
            -1
        } else {
            r + 1
        }
    }
}

/// Finds the first occurrence of a character at or after `from`.
#[verifier::loop_isolation(false)]
fn find_char(s: &Vec<char>, c: char, from: usize) -> (r: Option<usize>)
    requires
        from <= s@.len(),
    ensures
        ({
            let rel = first_char_at(s@.skip(from as int), c);
            match r {
                Some(i) => from <= i < s@.len() && rel == i - from,
                None => rel == -1,
            }
        }),
    decreases s@.len() - from,
{
    if from >= s.len() {
        return None;
    }
    if s[from] == c {
        proof {
            assert(s@.skip(from as int)[0] == s@[from as int]);
        }
        return Some(from);
    }
    proof {
        assert(s@.skip(from as int)[0] == s@[from as int]);
        assert(s@.skip(from as int).drop_first() =~= s@.skip(from + 1));
    }
    find_char(s, c, from + 1)
}

/// Splits the characters from `from` on, appending the segments.
#[verifier::loop_isolation(false)]
fn split_from(s: &Vec<char>, c: char, from: usize, out: &mut Vec<Datum>)
    requires
        from <= s@.len(),
    ensures
        dviews(final(out)@) == dviews(old(out)@) + seg_datums(split_spec(s@.skip(from as int), c)),
    decreases s@.len() - from,
{
    let ghost pre = out@;
    let ghost tail = s@.skip(from as int);
    match find_char(s, c, from) {
        Some(i) => {
            let mut seg: Vec<char> = Vec::new();
            let mut j: usize = from;
            while j < i
                invariant
                    from <= j <= i,
                    i < s@.len(),
                    seg@ =~= s@.subrange(from as int, j as int),
                decreases i - j,
            {
                seg.push(s[j]);
                proof {
                    assert(seg@ =~= s@.subrange(from as int, j + 1));
                }
                j = j + 1;
            }
            out.push(Datum::Str(Rc::new(seg)));
            let ghost mid = out@;
            proof {
                assert(vstd::std_specs::vec::spec_vec_len(s) == s@.len());
            }
            split_from(s, c, i + 1, out);
            proof {
                assert(tail.subrange(0, i - from) =~= s@.subrange(from as int, i as int));
                assert(tail.subrange(i - from + 1, tail.len() as int) =~= s@.skip(i + 1));
                assert(first_char_at(tail, c) == i - from);
                assert(dviews(mid) =~= dviews(pre).push(DatumV::Str(s@.subrange(
                    from as int,
                    i as int,
                ))));
                assert(split_spec(tail, c) =~= seq![tail.subrange(0, i - from)] + split_spec(
                    s@.skip(i + 1),
                    c,
                ));
                assert(dviews(out@) =~= dviews(pre) + seg_datums(split_spec(tail, c)));
            }
        },
        None => {
            let mut seg: Vec<char> = Vec::new();
            let mut j: usize = from;
            while j < s.len()
                invariant
                    from <= j <= s@.len(),
                    seg@ =~= s@.subrange(from as int, j as int),
                decreases s@.len() - j,
            {
                seg.push(s[j]);
                proof {
                    assert(seg@ =~= s@.subrange(from as int, j + 1));
                }
                j = j + 1;
            }
            out.push(Datum::Str(Rc::new(seg)));
            proof {
                assert(seg@ =~= tail);
                assert(split_spec(tail, c) =~= seq![tail]);
                assert(dviews(out@) =~= dviews(pre) + seg_datums(split_spec(tail, c)));
            }
        },
    }
}

/// `(string-split s ch)`: the list of segments of `s` between occurrences
/// of the character.
#[verifier::loop_isolation(false)]
pub fn native_string_split(args: &Vec<Datum>) -> (r: Result<Datum, RuntimeError>)
    ensures
        match r {
            Ok(d) => args@.len() == 2 && (args@[0]@ matches DatumV::Str(x) && (args@[1]@ matches
                DatumV::Char(c) && d@ == list_of(seg_datums(split_spec(x, c))))),
            Err(e) => {
                if args@.len() != 2 {
                    e == RuntimeError::Arity
                } else {
                    (!(args@[0]@ is Str) || !(args@[1]@ is Char)) && e == RuntimeError::Type
                }
            },
        },
{
    if args.len() != 2 {
        return Err(RuntimeError::Arity);
    }
    let x = expect_str(&args[0])?;
    let c = match &args[1] {
        Datum::Character(c) => *c,
        Datum::Boolean(_) | Datum::Number(_) | Datum::Symbol(_) | Datum::Str(_)
            | Datum::EmptyList | Datum::Pair(_, _) | Datum::Vector(_, _) | Datum::Procedure(_)
            | Datum::SyntaxRule(_) | Datum::Ext(_) => {
            return Err(RuntimeError::Type);
        },
    };
    let mut out: Vec<Datum> = Vec::new();
    proof {
        assert(dviews(out@) =~= Seq::<DatumV>::empty());
        assert(x@.skip(0) =~= x@);
    }
    split_from(&x, c, 0, &mut out);
    proof {
        assert(Seq::<DatumV>::empty() + seg_datums(split_spec(x@, c)) =~= seg_datums(
            split_spec(x@, c),
        ));
    }
    Ok(Datum::list(out))
}

/// The proper list of the characters of a string, as character datums.
pub open spec fn char_list(s: Seq<char>) -> DatumV
    decreases s.len(),
{
    if s.len() == 0 {
        DatumV::Nil
    } else {
        DatumV::Pair(Box::new(DatumV::Char(s[0])), Box::new(char_list(s.drop_first())))
    }
}

/// `(string->list s)`: the list of the characters.
#[verifier::rlimit(100)]
#[verifier::loop_isolation(false)]
pub fn native_string_to_list(args: &Vec<Datum>) -> (r: Result<Datum, RuntimeError>)
    ensures
        match r {
            Ok(d) => args@.len() == 1 && (args@[0]@ matches DatumV::Str(x) && d@ == char_list(x)),
            Err(e) => {
                if args@.len() != 1 {
                    e == RuntimeError::Arity
                } else {
                    !(args@[0]@ is Str) && e == RuntimeError::Type
                }
            },
        },
{
    if args.len() != 1 {
        return Err(RuntimeError::Arity);
    }
    let x = expect_str(&args[0])?;
    let xs: Vec<char> = copy_name(&x);
    let mut out = Datum::EmptyList;
    let mut i: usize = xs.len();
    proof {
        assert(x@.skip(x@.len() as int) =~= Seq::<char>::empty());
        assert(dv(Datum::Character('a')) == DatumV::Char('a'));
    }
    while i > 0
        invariant
            i <= xs@.len(),
            xs@ == x@,
            out@ == char_list(x@.skip(i as int)),
        decreases i,
    {
        i = i - 1;
        let ch = xs[i];
        let head = Datum::Character(ch);
        proof {
            crate::datum::lemma_dv_char(ch);
            assert(ch == x@[i as int]);
            assert(head@ == DatumV::Char(ch));
        }
        let ghost headv = head@;
        let ghost prev = out@;
        out = Datum::pair(head, out);
        proof {
            assert(out@ == DatumV::Pair(Box::new(headv), Box::new(prev)));
            assert(prev == char_list(x@.skip(i + 1)));
            let tail = x@.skip(i as int);
            assert(tail[0] == x@[i as int]);
            assert(tail.drop_first() =~= x@.skip(i + 1));
            assert(tail.len() > 0);
            assert(char_list(tail) == DatumV::Pair(
                Box::new(DatumV::Char(tail[0])),
                Box::new(char_list(tail.drop_first())),
            ));
            assert(out@ == char_list(tail));
        }
    }
    proof {
        assert(x@.skip(0) =~= x@);
    }
    Ok(out)
}

/// `(list->string chars)`: the string of a proper list of characters.
#[verifier::loop_isolation(false)]
pub fn native_list_to_string(args: &Vec<Datum>) -> (r: Result<Datum, RuntimeError>)
    ensures
        match r {
            Ok(d) => {
                &&& args@.len() == 1
                &&& is_proper(args@[0]@)
                &&& forall|i: int|
                    0 <= i < flat_elems(args@[0]@).len() ==> flat_elems(args@[0]@)[i] is Char
                &&& d@ == DatumV::Str(datum_chars(flat_elems(args@[0]@)))
            },
            Err(e) => {
                if args@.len() != 1 {
                    e == RuntimeError::Arity
                } else {
                    e == RuntimeError::Type && (!is_proper(args@[0]@) || exists|i: int|
                        0 <= i < flat_elems(args@[0]@).len() && !(flat_elems(args@[0]@)[i]
                            is Char))
                }
            },
        },
{
    if args.len() != 1 {
        return Err(RuntimeError::Arity);
    }
    let elems = args[0].to_vec()?;
    let ghost ev = dviews(elems@);
    let mut out: Vec<char> = Vec::new();
    let mut i: usize = 0;
    while i < elems.len()
        invariant
            i <= elems@.len(),
            ev == dviews(elems@),
            forall|j: int| 0 <= j < i ==> ev[j] is Char,
            out@.len() == i,
            forall|j: int| 0 <= j < i ==> out@[j] == ev[j]->Char_0,
        decreases elems@.len() - i,
    {
        proof {
            assert(ev[i as int] == dv(elems@[i as int]));
        }
        match &elems[i] {
            Datum::Character(c) => {
                out.push(*c);
            },
            Datum::Boolean(_) | Datum::Number(_) | Datum::Symbol(_) | Datum::Str(_)
                | Datum::EmptyList | Datum::Pair(_, _) | Datum::Vector(_, _)
                | Datum::Procedure(_) | Datum::SyntaxRule(_) | Datum::Ext(_) => {
                return Err(RuntimeError::Type);
            },
        }
        i = i + 1;
    }
    proof {
        assert(out@ =~= datum_chars(ev));
    }
    Ok(Datum::Str(Rc::new(out)))
}

/// `(string->number s)`: the decimal integer a string denotes.
#[verifier::loop_isolation(false)]
pub fn native_string_to_number(args: &Vec<Datum>) -> (r: Result<Datum, RuntimeError>)
    ensures
        match r {
            Ok(d) => args@.len() == 1 && (args@[0]@ matches DatumV::Str(x) && numeral_shape(x)
                && i64::MIN <= numeral_val(x) <= i64::MAX && d@ == DatumV::Num(numeral_val(x))),
            Err(e) => {
                if args@.len() != 1 {
                    e == RuntimeError::Arity
                } else if !(args@[0]@ is Str) {
                    e == RuntimeError::Type
                } else {
                    e == RuntimeError::Domain && (args@[0]@ matches DatumV::Str(x) && !(
                    numeral_shape(x) && i64::MIN <= numeral_val(x) <= i64::MAX))
                }
            },
        },
{
    if args.len() != 1 {
        return Err(RuntimeError::Arity);
    }
    let x = expect_str(&args[0])?;
    match parse_i64(x.as_slice()) {
        Some(n) => Ok(Datum::Number(n)),
        None => Err(RuntimeError::Domain),
    }
}

/// `(string->symbol s)`.
#[verifier::loop_isolation(false)]
pub fn native_string_to_symbol(args: &Vec<Datum>) -> (r: Result<Datum, RuntimeError>)
    ensures
        match r {
            Ok(d) => args@.len() == 1 && (args@[0]@ matches DatumV::Str(x) && d@ == DatumV::Sym(
                x,
            )),
            Err(e) => {
                if args@.len() != 1 {
                    e == RuntimeError::Arity
                } else {
                    !(args@[0]@ is Str) && e == RuntimeError::Type
                }
            },
        },
{
    if args.len() != 1 {
        return Err(RuntimeError::Arity);
    }
    let x = expect_str(&args[0])?;
    Ok(Datum::Symbol(x))
}

/// `(symbol->string sym)`.
#[verifier::loop_isolation(false)]
pub fn native_symbol_to_string(args: &Vec<Datum>) -> (r: Result<Datum, RuntimeError>)
    ensures
        match r {
            Ok(d) => args@.len() == 1 && (args@[0]@ matches DatumV::Sym(x) && d@ == DatumV::Str(
                x,
            )),
            Err(e) => {
                if args@.len() != 1 {
                    e == RuntimeError::Arity
                } else {
                    !(args@[0]@ is Sym) && e == RuntimeError::Type
                }
            },
        },
{
    if args.len() != 1 {
        return Err(RuntimeError::Arity);
    }
    match &args[0] {
        Datum::Symbol(x) => Ok(Datum::Str(rc_clone(x))),
        Datum::Boolean(_) | Datum::Number(_) | Datum::Character(_) | Datum::Str(_)
            | Datum::EmptyList | Datum::Pair(_, _) | Datum::Vector(_, _) | Datum::Procedure(_)
            | Datum::SyntaxRule(_) | Datum::Ext(_) => Err(RuntimeError::Type),
    }
}

/// `(substring s start [end])`: the characters from `start` (inclusive) to
/// `end` (exclusive), which must satisfy `0 <= start <= end <= length`.
#[verifier::loop_isolation(false)]
pub fn native_substring(args: &Vec<Datum>) -> (r: Result<Datum, RuntimeError>)
    ensures
        match r {
            Ok(d) => {
                &&& (args@.len() == 2 || args@.len() == 3)
                &&& args@[0]@ matches DatumV::Str(x)
                &&& args@[1]@ matches DatumV::Num(start)
                &&& {
                    let end = if args@.len() == 3 {
                        args@[2]@->Num_0
                    } else {
                        args@[0]@->Str_0.len() as int
                    };
                    &&& 0 <= args@[1]@->Num_0 <= end <= args@[0]@->Str_0.len()
                    &&& d@ == DatumV::Str(args@[0]@->Str_0.subrange(args@[1]@->Num_0, end))
                }
            },
            Err(e) => {
                if args@.len() != 2 && args@.len() != 3 {
                    e == RuntimeError::Arity
                } else if !(args@[0]@ is Str) || !(args@[1]@ is Num) || (args@.len() == 3 && !(
                args@[2]@ is Num)) {
                    e == RuntimeError::Type
                } else {
                    let sv = args@[0]@->Str_0;
                    let start = args@[1]@->Num_0;
                    let end = if args@.len() == 3 {
                        args@[2]@->Num_0
                    } else {
                        sv.len() as int
                    };
                    e == RuntimeError::Domain && (!(0 <= start <= end <= sv.len()) || (args@.len()
                        == 2 && sv.len() > i64::MAX))
                }
            },
        },
{
    if args.len() != 2 && args.len() != 3 {
        return Err(RuntimeError::Arity);
    }
    let x = expect_str(&args[0])?;
    let start_n: i64 = match &args[1] {
        Datum::Number(n) => *n,
        Datum::Boolean(_) | Datum::Character(_) | Datum::Symbol(_) | Datum::Str(_)
            | Datum::EmptyList | Datum::Pair(_, _) | Datum::Vector(_, _) | Datum::Procedure(_)
            | Datum::SyntaxRule(_) | Datum::Ext(_) => {
            return Err(RuntimeError::Type);
        },
    };
    let end_n: i64 = if args.len() == 3 {
        match &args[2] {
            Datum::Number(n) => *n,
            Datum::Boolean(_) | Datum::Character(_) | Datum::Symbol(_) | Datum::Str(_)
                | Datum::EmptyList | Datum::Pair(_, _) | Datum::Vector(_, _)
                | Datum::Procedure(_) | Datum::SyntaxRule(_) | Datum::Ext(_) => {
                return Err(RuntimeError::Type);
            },
        }
    } else {
        if x.len() as u64 > I64_MAX_INT as u64 {
            return Err(RuntimeError::Domain);
        }
        x.len() as i64
    };
    if start_n < 0 || end_n < start_n || (end_n as u64 as usize) > x.len() || end_n as u64
        > usize::MAX as u64 {
        return Err(RuntimeError::Domain);
    }
    let start: usize = start_n as usize;
    let end: usize = end_n as usize;
    let mut out: Vec<char> = Vec::new();
    let mut i: usize = start;
    while i < end
        invariant
            start <= i <= end,
            end <= x@.len(),
            out@ =~= x@.subrange(start as int, i as int),
        decreases end - i,
    {
        out.push(x[i]);
        proof {
            assert(out@ =~= x@.subrange(start as int, i + 1));
        }
        i = i + 1;
    }
    Ok(Datum::Str(Rc::new(out)))
}

/// `(boolean? x)` and its sibling predicates: one argument, a structural
/// variant test.
pub fn native_boolean_p(args: &Vec<Datum>) -> (r: Result<Datum, RuntimeError>)
    ensures
        match r {
            Ok(d) => args@.len() == 1 && d@ == DatumV::Bool(args@[0]@ is Bool),
            Err(e) => args@.len() != 1 && e == RuntimeError::Arity,
        },
{
    if args.len() != 1 {
        return Err(RuntimeError::Arity);
    }
    match &args[0] {
        Datum::Boolean(_) => Ok(Datum::Boolean(true)),
        Datum::Number(_) | Datum::Character(_) | Datum::Symbol(_) | Datum::Str(_)
            | Datum::EmptyList | Datum::Pair(_, _) | Datum::Vector(_, _) | Datum::Procedure(_)
            | Datum::SyntaxRule(_) | Datum::Ext(_) => Ok(Datum::Boolean(false)),
    }
}

pub fn native_char_p(args: &Vec<Datum>) -> (r: Result<Datum, RuntimeError>)
    ensures
        match r {
            Ok(d) => args@.len() == 1 && d@ == DatumV::Bool(args@[0]@ is Char),
            Err(e) => args@.len() != 1 && e == RuntimeError::Arity,
        },
{
    if args.len() != 1 {
        return Err(RuntimeError::Arity);
    }
    match &args[0] {
        Datum::Character(_) => Ok(Datum::Boolean(true)),
        Datum::Boolean(_) | Datum::Number(_) | Datum::Symbol(_) | Datum::Str(_)
            | Datum::EmptyList | Datum::Pair(_, _) | Datum::Vector(_, _) | Datum::Procedure(_)
            | Datum::SyntaxRule(_) | Datum::Ext(_) => Ok(Datum::Boolean(false)),
    }
}

pub fn native_number_p(args: &Vec<Datum>) -> (r: Result<Datum, RuntimeError>)
    ensures
        match r {
            Ok(d) => args@.len() == 1 && d@ == DatumV::Bool(args@[0]@ is Num),
            Err(e) => args@.len() != 1 && e == RuntimeError::Arity,
        },
{
    if args.len() != 1 {
        return Err(RuntimeError::Arity);
    }
    match &args[0] {
        Datum::Number(_) => Ok(Datum::Boolean(true)),
        Datum::Boolean(_) | Datum::Character(_) | Datum::Symbol(_) | Datum::Str(_)
            | Datum::EmptyList | Datum::Pair(_, _) | Datum::Vector(_, _) | Datum::Procedure(_)
            | Datum::SyntaxRule(_) | Datum::Ext(_) => Ok(Datum::Boolean(false)),
    }
}

pub fn native_pair_p(args: &Vec<Datum>) -> (r: Result<Datum, RuntimeError>)
    ensures
        match r {
            Ok(d) => args@.len() == 1 && d@ == DatumV::Bool(args@[0]@ is Pair),
            Err(e) => args@.len() != 1 && e == RuntimeError::Arity,
        },
{
    if args.len() != 1 {
        return Err(RuntimeError::Arity);
    }
    match &args[0] {
        Datum::Pair(_, _) => Ok(Datum::Boolean(true)),
        Datum::Boolean(_) | Datum::Number(_) | Datum::Character(_) | Datum::Symbol(_)
            | Datum::Str(_) | Datum::EmptyList | Datum::Vector(_, _) | Datum::Procedure(_)
            | Datum::SyntaxRule(_) | Datum::Ext(_) => Ok(Datum::Boolean(false)),
    }
}

pub fn native_procedure_p(args: &Vec<Datum>) -> (r: Result<Datum, RuntimeError>)
    ensures
        match r {
            Ok(d) => args@.len() == 1 && d@ == DatumV::Bool(args@[0]@ is Proc),
            Err(e) => args@.len() != 1 && e == RuntimeError::Arity,
        },
{
    if args.len() != 1 {
        return Err(RuntimeError::Arity);
    }
    match &args[0] {
        Datum::Procedure(_) => Ok(Datum::Boolean(true)),
        Datum::Boolean(_) | Datum::Number(_) | Datum::Character(_) | Datum::Symbol(_)
            | Datum::Str(_) | Datum::EmptyList | Datum::Pair(_, _) | Datum::Vector(_, _)
            | Datum::SyntaxRule(_) | Datum::Ext(_) => Ok(Datum::Boolean(false)),
    }
}

pub fn native_string_p(args: &Vec<Datum>) -> (r: Result<Datum, RuntimeError>)
    ensures
        match r {
            Ok(d) => args@.len() == 1 && d@ == DatumV::Bool(args@[0]@ is Str),
            Err(e) => args@.len() != 1 && e == RuntimeError::Arity,
        },
{
    if args.len() != 1 {
        return Err(RuntimeError::Arity);
    }
    match &args[0] {
        Datum::Str(_) => Ok(Datum::Boolean(true)),
        Datum::Boolean(_) | Datum::Number(_) | Datum::Character(_) | Datum::Symbol(_)
            | Datum::EmptyList | Datum::Pair(_, _) | Datum::Vector(_, _) | Datum::Procedure(_)
            | Datum::SyntaxRule(_) | Datum::Ext(_) => Ok(Datum::Boolean(false)),
    }
}

pub fn native_symbol_p(args: &Vec<Datum>) -> (r: Result<Datum, RuntimeError>)
    ensures
        match r {
            Ok(d) => args@.len() == 1 && d@ == DatumV::Bool(args@[0]@ is Sym),
            Err(e) => args@.len() != 1 && e == RuntimeError::Arity,
        },
{
    if args.len() != 1 {
        return Err(RuntimeError::Arity);
    }
    match &args[0] {
        Datum::Symbol(_) => Ok(Datum::Boolean(true)),
        Datum::Boolean(_) | Datum::Number(_) | Datum::Character(_) | Datum::Str(_)
            | Datum::EmptyList | Datum::Pair(_, _) | Datum::Vector(_, _) | Datum::Procedure(_)
            | Datum::SyntaxRule(_) | Datum::Ext(_) => Ok(Datum::Boolean(false)),
    }
}

pub fn native_vector_p(args: &Vec<Datum>) -> (r: Result<Datum, RuntimeError>)
    ensures
        match r {
            Ok(d) => args@.len() == 1 && d@ == DatumV::Bool(args@[0]@ is Vector),
            Err(e) => args@.len() != 1 && e == RuntimeError::Arity,
        },
{
    if args.len() != 1 {
        return Err(RuntimeError::Arity);
    }
    match &args[0] {
        Datum::Vector(_, _) => Ok(Datum::Boolean(true)),
        Datum::Boolean(_) | Datum::Number(_) | Datum::Character(_) | Datum::Symbol(_)
            | Datum::Str(_) | Datum::EmptyList | Datum::Pair(_, _) | Datum::Procedure(_)
            | Datum::SyntaxRule(_) | Datum::Ext(_) => Ok(Datum::Boolean(false)),
    }
}

/// The instructions of `(quote x)`: push the operand unevaluated.
pub fn special_form_quote(mach: &mut Machine, env: usize, args: &Vec<Datum>) -> (r: Result<
    Vec<Instruction>,
    RuntimeError,
>)
    ensures
        *final(mach) == *old(mach),
        match r {
            Ok(v) => args@.len() == 1 && iviews(v@) =~= seq![InstructionV::PushValue(args@[0]@)],
            Err(e) => args@.len() != 1 && e == RuntimeError::Arity,
        },
{
    if args.len() != 1 {
        return Err(RuntimeError::Arity);
    }
    let out: Vec<Instruction> = vec![Instruction::PushValue(args[0].clone())];
    proof {
        assert(iviews(out@) =~= seq![InstructionV::PushValue(args@[0]@)]);
    }
    Ok(out)
}

/// The instructions of `(begin e1 ... en)`: evaluate each form in order,
/// dropping intermediate results; the last form is in tail position.
pub fn special_form_begin(mach: &mut Machine, env: usize, args: &Vec<Datum>) -> (r: Result<
    Vec<Instruction>,
    RuntimeError,
>)
    ensures
        *final(mach) == *old(mach),
        match r {
            Ok(v) => args@.len() >= 1 && iviews(v@) == body_instrs(dviews(args@), env as int),
            Err(e) => args@.len() == 0 && e == RuntimeError::Arity,
        },
{
    if args.len() == 0 {
        return Err(RuntimeError::Arity);
    }
    let mut out: Vec<Instruction> = Vec::new();
    emit_body(args, 0, env, &mut out);
    proof {
        assert(dviews(args@).skip(0) =~= dviews(args@));
        assert(iviews(out@) =~= body_instrs(dviews(args@), env as int));
    }
    Ok(out)
}

/// The instructions of `(eval x)`: evaluate the operand, then evaluate its
/// value as a form.
pub fn special_form_eval(mach: &mut Machine, env: usize, args: &Vec<Datum>) -> (r: Result<
    Vec<Instruction>,
    RuntimeError,
>)
    ensures
        *final(mach) == *old(mach),
        match r {
            Ok(v) => args@.len() == 1 && iviews(v@) =~= seq![
                InstructionV::PushValue(args@[0]@),
                InstructionV::Evaluate(env as int, false),
                InstructionV::Evaluate(env as int, false),
            ],
            Err(e) => args@.len() != 1 && e == RuntimeError::Arity,
        },
{
    if args.len() != 1 {
        return Err(RuntimeError::Arity);
    }
    let out: Vec<Instruction> = vec![
        Instruction::PushValue(args[0].clone()),
        Instruction::Evaluate(env, false),
        Instruction::Evaluate(env, false),
    ];
    proof {
        assert(iviews(out@) =~= seq![
            InstructionV::PushValue(args@[0]@),
            InstructionV::Evaluate(env as int, false),
            InstructionV::Evaluate(env as int, false),
        ]);
    }
    Ok(out)
}

/// The instructions of `(if c t)` or `(if c t e)`: evaluate the condition,
/// jump over the consequent when false; both branches are in tail position
/// and the consequent ends with a `Return`.  A missing alternative yields
/// `#f`.
pub fn special_form_if(mach: &mut Machine, env: usize, args: &Vec<Datum>) -> (r: Result<
    Vec<Instruction>,
    RuntimeError,
>)
    ensures
        *final(mach) == *old(mach),
        match r {
            Ok(v) => (args@.len() == 2 || args@.len() == 3) && iviews(v@) =~= seq![
                InstructionV::PushValue(args@[0]@),
                InstructionV::Evaluate(env as int, false),
                InstructionV::JumpIfFalse(3),
                InstructionV::PushValue(args@[1]@),
                InstructionV::Evaluate(env as int, true),
                InstructionV::Return,
            ] + (if args@.len() == 3 {
                seq![
                    InstructionV::PushValue(args@[2]@),
                    InstructionV::Evaluate(env as int, true),
                ]
            } else {
                seq![InstructionV::PushValue(DatumV::Bool(false))]
            }),
            Err(e) => args@.len() != 2 && args@.len() != 3 && e == RuntimeError::Arity,
        },
{
    if args.len() != 2 && args.len() != 3 {
        return Err(RuntimeError::Arity);
    }
    let mut out: Vec<Instruction> = vec![
        Instruction::PushValue(args[0].clone()),
        Instruction::Evaluate(env, false),
        Instruction::JumpIfFalse(3),
        Instruction::PushValue(args[1].clone()),
        Instruction::Evaluate(env, true),
        Instruction::Return,
    ];
    if args.len() == 3 {
        out.push(Instruction::PushValue(args[2].clone()));
        out.push(Instruction::Evaluate(env, true));
        proof {
            assert(iviews(out@) =~= seq![
                InstructionV::PushValue(args@[0]@),
                InstructionV::Evaluate(env as int, false),
                InstructionV::JumpIfFalse(3),
                InstructionV::PushValue(args@[1]@),
                InstructionV::Evaluate(env as int, true),
                InstructionV::Return,
                InstructionV::PushValue(args@[2]@),
                InstructionV::Evaluate(env as int, true),
            ]);
        }
    } else {
        out.push(Instruction::PushValue(Datum::Boolean(false)));
        proof {
            assert(iviews(out@) =~= seq![
                InstructionV::PushValue(args@[0]@),
                InstructionV::Evaluate(env as int, false),
                InstructionV::JumpIfFalse(3),
                InstructionV::PushValue(args@[1]@),
                InstructionV::Evaluate(env as int, true),
                InstructionV::Return,
                InstructionV::PushValue(DatumV::Bool(false)),
            ]);
        }
    }
    Ok(out)
}

/// The instructions of `(set! name value)`: evaluate the value and mutate
/// the nearest binding; the result is the empty list.
pub fn special_form_set(mach: &mut Machine, env: usize, args: &Vec<Datum>) -> (r: Result<
    Vec<Instruction>,
    RuntimeError,
>)
    ensures
        *final(mach) == *old(mach),
        match r {
            Ok(v) => args@.len() == 2 && (args@[0]@ matches DatumV::Sym(name) && iviews(v@) =~=
                seq![
                InstructionV::PushValue(args@[1]@),
                InstructionV::Evaluate(env as int, false),
                InstructionV::Define(env as int, name, DefineKind::Assign),
                InstructionV::PushValue(DatumV::Nil),
            ]),
            Err(e) => {
                if args@.len() != 2 {
                    e == RuntimeError::Arity
                } else {
                    !(args@[0]@ is Sym) && e == RuntimeError::Type
                }
            },
        },
{
    if args.len() != 2 {
        return Err(RuntimeError::Arity);
    }
    let name = match &args[0] {
        Datum::Symbol(s) => rc_clone(s),
        Datum::Boolean(_) | Datum::Number(_) | Datum::Character(_) | Datum::Str(_)
            | Datum::EmptyList | Datum::Pair(_, _) | Datum::Vector(_, _) | Datum::Procedure(_)
            | Datum::SyntaxRule(_) | Datum::Ext(_) => {
            return Err(RuntimeError::Type);
        },
    };
    let ghost namev = name@;
    let out: Vec<Instruction> = vec![
        Instruction::PushValue(args[1].clone()),
        Instruction::Evaluate(env, false),
        Instruction::Define(env, name, DefineKind::Assign),
        Instruction::PushValue(Datum::EmptyList),
    ];
    proof {
        assert(iviews(out@) =~= seq![
            InstructionV::PushValue(args@[1]@),
            InstructionV::Evaluate(env as int, false),
            InstructionV::Define(env as int, namev, DefineKind::Assign),
            InstructionV::PushValue(DatumV::Nil),
        ]);
    }
    Ok(out)
}

/// The instructions of `(define-syntax name rules)`: evaluate the
/// `syntax-rules` form and bind the macro; the result is the empty list.
pub fn special_form_define_syntax(mach: &mut Machine, env: usize, args: &Vec<Datum>) -> (r: Result<
    Vec<Instruction>,
    RuntimeError,
>)
    ensures
        *final(mach) == *old(mach),
        match r {
            Ok(v) => args@.len() == 2 && (args@[0]@ matches DatumV::Sym(name) && iviews(v@) =~=
                seq![
                InstructionV::PushValue(args@[1]@),
                InstructionV::Evaluate(env as int, false),
                InstructionV::Define(env as int, name, DefineKind::DefineSyntax),
                InstructionV::PushValue(DatumV::Nil),
            ]),
            Err(e) => {
                if args@.len() != 2 {
                    e == RuntimeError::Arity
                } else {
                    !(args@[0]@ is Sym) && e == RuntimeError::Type
                }
            },
        },
{
    if args.len() != 2 {
        return Err(RuntimeError::Arity);
    }
    let name = match &args[0] {
        Datum::Symbol(s) => rc_clone(s),
        Datum::Boolean(_) | Datum::Number(_) | Datum::Character(_) | Datum::Str(_)
            | Datum::EmptyList | Datum::Pair(_, _) | Datum::Vector(_, _) | Datum::Procedure(_)
            | Datum::SyntaxRule(_) | Datum::Ext(_) => {
            return Err(RuntimeError::Type);
        },
    };
    let ghost namev = name@;
    let out: Vec<Instruction> = vec![
        Instruction::PushValue(args[1].clone()),
        Instruction::Evaluate(env, false),
        Instruction::Define(env, name, DefineKind::DefineSyntax),
        Instruction::PushValue(Datum::EmptyList),
    ];
    proof {
        assert(iviews(out@) =~= seq![
            InstructionV::PushValue(args@[1]@),
            InstructionV::Evaluate(env as int, false),
            InstructionV::Define(env as int, namev, DefineKind::DefineSyntax),
            InstructionV::PushValue(DatumV::Nil),
        ]);
    }
    Ok(out)
}

/// The formal parameters of a lambda: a lone symbol is a rest parameter, a
/// proper list of symbols is fixed, and an improper list of symbols ends
/// in the rest parameter.
pub open spec fn parse_formals(v: DatumV) -> Option<(Seq<Seq<char>>, Option<Seq<char>>)> {
    match v {
        DatumV::Sym(s) => Some((Seq::empty(), Some(s))),
        DatumV::Nil => Some((Seq::empty(), None)),
        DatumV::Pair(_, _) => {
            let elems = flat_elems(v);
            if forall|i: int| 0 <= i < elems.len() ==> (#[trigger] elems[i]) is Sym {
                if is_proper(v) {
                    Some((sym_names(elems), None))
                } else {
                    Some((sym_names(elems).drop_last(), Some(sym_names(elems).last())))
                }
            } else {
                None
            }
        },
        _ => None,
    }
}

/// The names of a sequence of symbol datums.
pub open spec fn sym_names(s: Seq<DatumV>) -> Seq<Seq<char>> {
    Seq::new(s.len(), |i: int| s[i]->Sym_0)
}

/// The instructions of `(lambda formals body ...)`: push a closure value
/// capturing the current environment, with a fresh identity.
#[verifier::loop_isolation(false)]
pub fn special_form_lambda(mach: &mut Machine, env: usize, args: &Vec<Datum>) -> (r: Result<
    Vec<Instruction>,
    RuntimeError,
>)
    ensures
        final(mach).envs == old(mach).envs,
        final(mach).tables == old(mach).tables,
        match r {
            Ok(v) => {
                &&& args@.len() >= 2
                &&& parse_formals(args@[0]@) matches Some(fr)
                &&& iviews(v@) =~= seq![
                    InstructionV::PushValue(
                        DatumV::Proc(
                            ProcV::Scheme(
                                ClosureV {
                                    id: old(mach).next_id as nat,
                                    formals: fr.0,
                                    rest: fr.1,
                                    body: Box::new(list_of(dviews(args@).drop_first())),
                                    env: env as int,
                                },
                            ),
                        ),
                    ),
                ]
            },
            Err(e) => {
                if args@.len() < 2 {
                    e == RuntimeError::Arity
                } else {
                    parse_formals(args@[0]@) is None && e == RuntimeError::Syntax
                }
            },
        },
{
    if args.len() < 2 {
        return Err(RuntimeError::Arity);
    }
    let ghost fv = args@[0]@;
    let mut formals: Vec<Rc<Vec<char>>> = Vec::new();
    let mut rest: Option<Rc<Vec<char>>> = None;
    match &args[0] {
        Datum::Symbol(s) => {
            rest = Some(rc_clone(s));
            proof {
                assert(parse_formals(fv) == Some((Seq::<Seq<char>>::empty(), Some(s@))));
            }
        },
        Datum::EmptyList => {
            proof {
                assert(parse_formals(fv) == Some((Seq::<Seq<char>>::empty(), None::<Seq<char>>)));
            }
        },
        Datum::Pair(_, _) => {
            let (elems, proper) = args[0].as_vec();
            let ghost ev = dviews(elems@);
            let mut i: usize = 0;
            while i < elems.len()
                invariant
                    i <= elems@.len(),
                    ev == dviews(elems@),
                    forall|j: int| 0 <= j < i ==> (#[trigger] ev[j]) is Sym,
                    name_seq(formals@) =~= sym_names(ev).subrange(0, i as int),
                decreases elems@.len() - i,
            {
                proof {
                    assert(ev[i as int] == dv(elems@[i as int]));
                }
                match crate::datum::symbol_name(&elems[i]) {
                    Some(s) => {
                        let ghost pre = formals@;
                        formals.push(s);
                        proof {
                            assert(name_seq(formals@) =~= name_seq(pre).push(
                                formals@[formals@.len() - 1]@,
                            ));
                            assert(sym_names(ev).subrange(0, i + 1) =~= sym_names(ev).subrange(
                                0,
                                i as int,
                            ).push(sym_names(ev)[i as int]));
                        }
                    },
                    None => {
                        return Err(RuntimeError::Syntax);
                    },
                }
                i = i + 1;
            }
            proof {
                assert(sym_names(ev).subrange(0, ev.len() as int) =~= sym_names(ev));
                assert(flat_elems(fv).len() >= 1);
                assert(ev =~= flat_elems(fv));
            }
            if !proper {
                let ghost fpre = formals@;
                let last = formals.pop().unwrap();
                let ghost lastv = last@;
                rest = Some(last);
                proof {
                    assert(name_seq(fpre)[fpre.len() - 1] == fpre[fpre.len() - 1]@);
                    assert(lastv == sym_names(ev).last());
                    assert(name_seq(formals@) =~= name_seq(fpre).drop_last());
                    assert(name_seq(formals@) =~= sym_names(ev).drop_last());
                    assert(parse_formals(fv) == Some(
                        (sym_names(ev).drop_last(), Some(sym_names(ev).last())),
                    ));
                }
            } else {
                proof {
                    assert(parse_formals(fv) == Some((sym_names(ev), None::<Seq<char>>)));
                }
            }
        },
        Datum::Boolean(_) | Datum::Number(_) | Datum::Character(_) | Datum::Str(_)
            | Datum::Vector(_, _) | Datum::Procedure(_) | Datum::SyntaxRule(_) | Datum::Ext(
            _,
        ) => {
            return Err(RuntimeError::Syntax);
        },
    }
    // The body is the proper list of the remaining forms.
    let mut body_forms: Vec<Datum> = Vec::new();
    let mut i: usize = 1;
    while i < args.len()
        invariant
            1 <= i <= args@.len(),
            dviews(body_forms@) =~= dviews(args@).subrange(1, i as int),
        decreases args@.len() - i,
    {
        let ghost pre = body_forms@;
        body_forms.push(args[i].clone());
        proof {
            assert(dviews(body_forms@) =~= dviews(pre).push(dv(args@[i as int])));
            assert(dviews(args@)[i as int] == dv(args@[i as int]));
            assert(dviews(body_forms@) =~= dviews(args@).subrange(1, i + 1));
        }
        i = i + 1;
    }
    proof {
        assert(dviews(args@).subrange(1, args@.len() as int) =~= dviews(args@).drop_first());
    }
    let body = Datum::list(body_forms);
    let ghost bodyv = body@;
    let ghost fseq = name_seq(formals@);
    let ghost restv = opt_name_view(rest);
    proof {
        assert(names_view(formals@) =~= name_seq(formals@));
        assert(parse_formals(fv) == Some((fseq, restv)));
    }
    let id = mach.fresh_id();
    let scheme = crate::datum::make_scheme(id, formals, rest, body, env);
    let ghost schemev = scheme@;
    let out: Vec<Instruction> = vec![Instruction::PushValue(scheme)];
    proof {
        assert(iviews(out@) =~= seq![InstructionV::PushValue(schemev)]);
    }
    Ok(out)
}

/// One `(variable init)` binding of a `letrec`.
pub open spec fn parse_binds(s: Seq<DatumV>, i: int) -> Option<Seq<(Seq<char>, DatumV)>>
    decreases s.len() - i,
{
    if i < 0 || i >= s.len() {
        Some(Seq::empty())
    } else {
        let b = s[i];
        if is_proper(b) && flat_elems(b).len() == 2 && flat_elems(b)[0] is Sym {
            match parse_binds(s, i + 1) {
                Some(rest) => Some(
                    seq![(flat_elems(b)[0]->Sym_0, flat_elems(b)[1])] + rest,
                ),
                None => None,
            }
        } else {
            None
        }
    }
}

/// The binding instructions of a `letrec`: evaluate each init in the child
/// frame and bind it there.
pub open spec fn bind_instrs(bs: Seq<(Seq<char>, DatumV)>, env: int) -> Seq<InstructionV>
    decreases bs.len(),
{
    if bs.len() == 0 {
        Seq::empty()
    } else {
        seq![
            InstructionV::PushValue(bs[0].1),
            InstructionV::Evaluate(env, false),
            InstructionV::Define(env, bs[0].0, DefineKind::Define),
        ] + bind_instrs(bs.drop_first(), env)
    }
}

/// Emits the binding instructions from index `idx` on.
fn emit_binds(binds: &Vec<Datum>, idx: usize, child: usize, out: &mut Vec<Instruction>) -> (r:
    Result<(), RuntimeError>)
    requires
        idx <= binds@.len(),
    ensures
        match r {
            Ok(()) => parse_binds(dviews(binds@), idx as int) matches Some(bs) && iviews(
                final(out)@,
            ) == iviews(old(out)@) + bind_instrs(bs, child as int),
            Err(e) => {
                &&& parse_binds(dviews(binds@), idx as int) is None
                &&& e == RuntimeError::Syntax
            },
        },
    decreases binds@.len() - idx,
{
    let ghost pre = out@;
    if idx >= binds.len() {
        proof {
            assert(iviews(out@) =~= iviews(pre) + bind_instrs(Seq::empty(), child as int));
        }
        return Ok(());
    }
    proof {
        assert(dviews(binds@)[idx as int] == dv(binds@[idx as int]));
    }
    let parts = match binds[idx].to_vec() {
        Ok(v) => v,
        Err(_) => {
            return Err(RuntimeError::Syntax);
        },
    };
    if parts.len() != 2 {
        return Err(RuntimeError::Syntax);
    }
    proof {
        assert(dviews(parts@)[0] == flat_elems(dv(binds@[idx as int]))[0]);
        assert(dviews(parts@)[1] == flat_elems(dv(binds@[idx as int]))[1]);
    }
    let name = match crate::datum::symbol_name(&parts[0]) {
        Some(s) => s,
        None => {
            return Err(RuntimeError::Syntax);
        },
    };
    proof {
        assert(is_proper(dv(binds@[idx as int])));
        assert(flat_elems(dv(binds@[idx as int])).len() == 2);
        assert(flat_elems(dv(binds@[idx as int]))[0] is Sym);
        assert(name@ == flat_elems(dv(binds@[idx as int]))[0]->Sym_0);
    }
    out.push(Instruction::PushValue(parts[1].clone()));
    out.push(Instruction::Evaluate(child, false));
    out.push(Instruction::Define(child, name, DefineKind::Define));
    let ghost mid = out@;
    let r = emit_binds(binds, idx + 1, child, out);
    match r {
        Ok(()) => {
            proof {
                let sv = dviews(binds@);
                assert(sv[idx as int] == dv(binds@[idx as int]));
                assert(parse_binds(sv, idx + 1) is Some);
                assert(parse_binds(sv, idx as int) == Some(
                    seq![(flat_elems(sv[idx as int])[0]->Sym_0, flat_elems(sv[idx as int])[1])]
                        + parse_binds(sv, idx + 1)->Some_0,
                ));
                let bs = parse_binds(dviews(binds@), idx as int)->Some_0;
                let rest = parse_binds(dviews(binds@), idx + 1)->Some_0;
                assert(bs =~= seq![
                    (
                        flat_elems(dv(binds@[idx as int]))[0]->Sym_0,
                        flat_elems(dv(binds@[idx as int]))[1],
                    ),
                ] + rest);
                assert(iviews(mid) =~= iviews(pre) + seq![
                    InstructionV::PushValue(bs[0].1),
                    InstructionV::Evaluate(child as int, false),
                    InstructionV::Define(child as int, bs[0].0, DefineKind::Define),
                ]);
                assert(bs.drop_first() =~= rest);
                assert(bs.len() >= 1);
                assert(bind_instrs(bs, child as int) =~= seq![
                    InstructionV::PushValue(bs[0].1),
                    InstructionV::Evaluate(child as int, false),
                    InstructionV::Define(child as int, bs[0].0, DefineKind::Define),
                ] + bind_instrs(rest, child as int));
                assert(iviews(out@) =~= iviews(pre) + bind_instrs(bs, child as int));
            }
            Ok(())
        },
        Err(e) => {
            // the caller discards the emitted prefix on error
            Err(e)
        },
    }
}

/// The instructions of `(letrec ((v1 i1) ...) body ...)`: a fresh child
/// frame; each init evaluated and bound there in order (so the bindings
/// see each other), then the body, whose last form is in tail position.
#[verifier::loop_isolation(false)]
pub fn special_form_letrec(mach: &mut Machine, env: usize, args: &Vec<Datum>) -> (r: Result<
    Vec<Instruction>,
    RuntimeError,
>)
    requires
        old(mach).wf(),
        env < old(mach).envs.frame_count(),
    ensures
        final(mach).wf(),
        final(mach).tables == old(mach).tables,
        final(mach).envs.frame_count() >= old(mach).envs.frame_count(),
        match r {
            Ok(v) => {
                let child = old(mach).envs.frame_count() as int;
                &&& args@.len() >= 2
                &&& is_proper(args@[0]@)
                &&& parse_binds(flat_elems(args@[0]@), 0) matches Some(bs)
                &&& iviews(v@) == bind_instrs(bs, child) + body_instrs(
                    dviews(args@).drop_first(),
                    child,
                )
                &&& final(mach).envs.frame_count() == old(mach).envs.frame_count() + 1
                &&& final(mach).envs.parent_of(child) == Some(env)
                &&& forall|e: int, n: Seq<char>|
                    0 <= e < old(mach).envs.frame_count() ==> #[trigger] final(mach).envs.lookup(e, n) == old(mach).envs.lookup(e, n)
            },
            Err(e) => {
                if args@.len() < 2 {
                    e == RuntimeError::Syntax
                } else {
                    e == RuntimeError::Syntax && (!is_proper(args@[0]@) || parse_binds(
                        flat_elems(args@[0]@),
                        0,
                    ) is None)
                }
            },
        },
{
    if args.len() < 2 {
        return Err(RuntimeError::Syntax);
    }
    let bindings = match args[0].to_vec() {
        Ok(v) => v,
        Err(_) => {
            return Err(RuntimeError::Syntax);
        },
    };
    let mut out: Vec<Instruction> = Vec::new();
    // Probe the bindings before creating the child frame, so that a
    // malformed form leaves the machine unchanged.
    let mut probe: Vec<Instruction> = Vec::new();
    if let Err(_) = emit_binds(&bindings, 0, 0, &mut probe) {
        return Err(RuntimeError::Syntax);
    }
    let child = mach.envs.new_child(env);
    match emit_binds(&bindings, 0, child, &mut out) {
        Ok(()) => {},
        Err(_) => {
            return Err(RuntimeError::Internal);
        },
    }
    let ghost mid = out@;
    // The body forms, evaluated in the child frame.
    let mut body_forms: Vec<Datum> = Vec::new();
    let mut i: usize = 1;
    while i < args.len()
        invariant
            1 <= i <= args@.len(),
            dviews(body_forms@) =~= dviews(args@).subrange(1, i as int),
        decreases args@.len() - i,
    {
        let ghost pre = body_forms@;
        body_forms.push(args[i].clone());
        proof {
            assert(dviews(body_forms@) =~= dviews(pre).push(dv(args@[i as int])));
            assert(dviews(args@)[i as int] == dv(args@[i as int]));
            assert(dviews(body_forms@) =~= dviews(args@).subrange(1, i + 1));
        }
        i = i + 1;
    }
    proof {
        assert(dviews(args@).subrange(1, args@.len() as int) =~= dviews(args@).drop_first());
    }
    emit_body(&body_forms, 0, child, &mut out);
    proof {
        assert(dviews(body_forms@).skip(0) =~= dviews(body_forms@));
        let bs = parse_binds(dviews(bindings@), 0)->Some_0;
        assert(dviews(bindings@) == flat_elems(args@[0]@));
        assert(iviews(out@) =~= bind_instrs(bs, child as int) + body_instrs(
            dviews(args@).drop_first(),
            child as int,
        ));
    }
    Ok(out)
}

/// The instructions of `(define name value)` or
/// `(define (name . formals) body ...)`: the second form is rewritten to a
/// lambda.  The result of a definition is the empty list.
pub fn special_form_define(mach: &mut Machine, env: usize, args: &Vec<Datum>) -> (r: Result<
    Vec<Instruction>,
    RuntimeError,
>)
    ensures
        final(mach).envs == old(mach).envs,
        final(mach).tables == old(mach).tables,
        match r {
            Ok(v) => {
                &&& args@.len() >= 2
                &&& match args@[0]@ {
                    DatumV::Sym(name) => args@.len() == 2 && iviews(v@) =~= seq![
                        InstructionV::PushValue(args@[1]@),
                        InstructionV::Evaluate(env as int, false),
                        InstructionV::Define(env as int, name, DefineKind::Define),
                        InstructionV::PushValue(DatumV::Nil),
                    ],
                    DatumV::Pair(h, t) => {
                        &&& *h matches DatumV::Sym(name)
                        &&& parse_formals(*t) matches Some(fr)
                        &&& iviews(v@) =~= seq![
                            InstructionV::PushValue(
                                DatumV::Proc(
                                    ProcV::Scheme(
                                        ClosureV {
                                            id: old(mach).next_id as nat,
                                            formals: fr.0,
                                            rest: fr.1,
                                            body: Box::new(
                                                list_of(dviews(args@).drop_first()),
                                            ),
                                            env: env as int,
                                        },
                                    ),
                                ),
                            ),
                            InstructionV::Define(env as int, h->Sym_0, DefineKind::Define),
                            InstructionV::PushValue(DatumV::Nil),
                        ]
                    },
                    _ => false,
                }
            },
            Err(e) => {
                if args@.len() < 2 {
                    e == RuntimeError::Arity
                } else {
                    match args@[0]@ {
                        DatumV::Sym(_) => e == RuntimeError::Arity && args@.len() != 2,
                        DatumV::Pair(h, t) => e == RuntimeError::Syntax && (!(*h is Sym)
                            || parse_formals(*t) is None),
                        _ => e == RuntimeError::Syntax,
                    }
                }
            },
        },
{
    if args.len() < 2 {
        return Err(RuntimeError::Arity);
    }
    match &args[0] {
        Datum::Symbol(s) => {
            if args.len() != 2 {
                return Err(RuntimeError::Arity);
            }
            let name = rc_clone(s);
            let ghost namev = name@;
            let out: Vec<Instruction> = vec![
                Instruction::PushValue(args[1].clone()),
                Instruction::Evaluate(env, false),
                Instruction::Define(env, name, DefineKind::Define),
                Instruction::PushValue(Datum::EmptyList),
            ];
            proof {
                assert(iviews(out@) =~= seq![
                    InstructionV::PushValue(args@[1]@),
                    InstructionV::Evaluate(env as int, false),
                    InstructionV::Define(env as int, namev, DefineKind::Define),
                    InstructionV::PushValue(DatumV::Nil),
                ]);
            }
            Ok(out)
        },
        Datum::Pair(car, cdr) => {
            let name = match crate::datum::symbol_name(&**car) {
                Some(s) => s,
                None => {
                    return Err(RuntimeError::Syntax);
                },
            };
            let ghost namev = name@;
            // Rewrite to (lambda formals body ...).
            let mut lambda_args: Vec<Datum> = Vec::new();
            lambda_args.push((**cdr).clone());
            let mut i: usize = 1;
            while i < args.len()
                invariant
                    1 <= i <= args@.len(),
                    lambda_args@.len() == i,
                    dviews(lambda_args@) =~= seq![dv(**cdr)] + dviews(args@).subrange(
                        1,
                        i as int,
                    ),
                decreases args@.len() - i,
            {
                let ghost pre = lambda_args@;
                lambda_args.push(args[i].clone());
                proof {
                    assert(dviews(lambda_args@) =~= dviews(pre).push(dv(args@[i as int])));
                    assert(dviews(args@)[i as int] == dv(args@[i as int]));
                    assert(dviews(lambda_args@) =~= seq![dv(**cdr)] + dviews(args@).subrange(
                        1,
                        i + 1,
                    ));
                }
                i = i + 1;
            }
            proof {
                assert(dviews(args@).subrange(1, args@.len() as int) =~= dviews(
                    args@,
                ).drop_first());
                assert(dviews(lambda_args@)[0] == dv(**cdr));
                assert(dviews(lambda_args@).drop_first() =~= dviews(args@).drop_first());
            }
            let mut out = match special_form_lambda(mach, env, &lambda_args) {
                Ok(v) => v,
                Err(_) => {
                    proof {
                        assert(dviews(lambda_args@)[0] == dv(**cdr));
                        assert(lambda_args@.len() == args@.len());
                    }
                    return Err(RuntimeError::Syntax);
                },
            };
            let ghost lam = iviews(out@);
            out.push(Instruction::Define(env, name, DefineKind::Define));
            out.push(Instruction::PushValue(Datum::EmptyList));
            proof {
                assert(iviews(out@) =~= lam + seq![
                    InstructionV::Define(env as int, namev, DefineKind::Define),
                    InstructionV::PushValue(DatumV::Nil),
                ]);
            }
            Ok(out)
        },
        Datum::Boolean(_) | Datum::Number(_) | Datum::Character(_) | Datum::Str(_)
            | Datum::EmptyList | Datum::Vector(_, _) | Datum::Procedure(_)
            | Datum::SyntaxRule(_) | Datum::Ext(_) => Err(RuntimeError::Syntax),
    }
}

/// A well-formed keyword list: a proper list of symbols, none the
/// ellipsis.
pub open spec fn keywords_ok(v: DatumV) -> bool {
    &&& is_proper(v)
    &&& forall|i: int|
        0 <= i < flat_elems(v).len() ==> (#[trigger] flat_elems(v)[i]) is Sym && flat_elems(
            v,
        )[i]->Sym_0 != crate::pattern::ellipsis()
}

/// A well-formed `((pattern) template)` clause: a proper two-element list
/// whose first element starts with the macro identifier, with a valid
/// pattern and a valid template.
pub open spec fn rule_ok(rv: DatumV, kws: Seq<Seq<char>>) -> bool {
    &&& is_proper(rv)
    &&& flat_elems(rv).len() == 2
    &&& flat_elems(rv)[0] matches DatumV::Pair(h, t) && *h is Sym && pattern_vars_ok(
        *t,
        kws,
        true,
        Seq::empty(),
    ) is Some
    &&& template_syms_ok(flat_elems(rv)[1], true, Seq::empty()) is Some
}

/// The instructions of `(syntax-rules (kw ...) ((pat) tmpl) ...)`: push a
/// compiled macro value with a fresh identity.  Each clause's pattern and
/// template are verified, and the template's free variables that are bound
/// at definition time are snapshotted into the clause.
pub fn special_form_syntax_rules(mach: &mut Machine, env: usize, args: &Vec<Datum>) -> (r: Result<
    Vec<Instruction>,
    RuntimeError,
>)
    requires
        old(mach).wf(),
        env < old(mach).envs.frame_count(),
    ensures
        final(mach).envs == old(mach).envs,
        final(mach).tables == old(mach).tables,
        final(mach).wf(),
        match r {
            Ok(v) => {
                &&& args@.len() >= 2
                &&& keywords_ok(args@[0]@)
                &&& forall|i: int|
                    1 <= i < args@.len() ==> rule_ok(
                        #[trigger] dviews(args@)[i],
                        sym_names(flat_elems(args@[0]@)),
                    )
                &&& iviews(v@) =~= seq![
                    InstructionV::PushValue(DatumV::Syntax(old(mach).next_id as nat)),
                ]
            },
            Err(e) => {
                &&& (e == RuntimeError::Syntax || e == RuntimeError::Type)
                &&& !({
                    &&& args@.len() >= 2
                    &&& keywords_ok(args@[0]@)
                    &&& forall|i: int|
                        1 <= i < args@.len() ==> rule_ok(
                            #[trigger] dviews(args@)[i],
                            sym_names(flat_elems(args@[0]@)),
                        )
                })
            },
        },
{
    if args.len() < 2 {
        return Err(RuntimeError::Syntax);
    }
    let kw_elems = match args[0].to_vec() {
        Ok(v) => v,
        Err(_) => {
            return Err(RuntimeError::Type);
        },
    };
    let ghost kv = dviews(kw_elems@);
    let mut keywords: Vec<Rc<Vec<char>>> = Vec::new();
    let mut i: usize = 0;
    #[verifier::loop_isolation(false)]
    while i < kw_elems.len()
        invariant
            i <= kw_elems@.len(),
            keywords@.len() == i,
            forall|j: int|
                0 <= j < i ==> (#[trigger] kv[j]) is Sym && kv[j]->Sym_0
                    != crate::pattern::ellipsis(),
            forall|j: int| 0 <= j < i ==> name_seq(keywords@)[j] == kv[j]->Sym_0,
        decreases kw_elems@.len() - i,
    {
        proof {
            assert(kv[i as int] == dv(kw_elems@[i as int]));
        }
        match crate::datum::symbol_name(&kw_elems[i]) {
            Some(nm) => {
                if crate::pattern::is_ellipsis_name(&nm) {
                    return Err(RuntimeError::Syntax);
                }
                let ghost kpre = keywords@;
                keywords.push(nm);
                proof {
                    assert forall|j: int| 0 <= j < i + 1 implies name_seq(keywords@)[j]
                        == kv[j]->Sym_0 by {
                        assert(name_seq(keywords@)[j] == keywords@[j]@);
                        if j < i {
                            assert(keywords@[j] == kpre[j]);
                            assert(name_seq(kpre)[j] == kpre[j]@);
                        }
                    }
                }
            },
            None => {
                return Err(RuntimeError::Syntax);
            },
        }
        i = i + 1;
    }
    proof {
        assert(keywords_ok(args@[0]@));
        assert(name_seq(keywords@) =~= sym_names(flat_elems(args@[0]@)));
    }
    let ghost kws = name_seq(keywords@);

    // Compile each clause.
    let mut rules: Vec<Rule> = Vec::new();
    let mut i2: usize = 1;
    #[verifier::loop_isolation(false)]
    while i2 < args.len()
        invariant
            1 <= i2 <= args@.len(),
            mach.wf(),
            mach.envs == old(mach).envs,
            mach.tables == old(mach).tables,
            mach.next_id == old(mach).next_id,
            forall|j: int| 1 <= j < i2 ==> rule_ok(#[trigger] dviews(args@)[j], kws),
        decreases args@.len() - i2,
    {
        proof {
            assert(dviews(args@)[i2 as int] == dv(args@[i2 as int]));
        }
        let parts = match args[i2].to_vec() {
            Ok(v) => v,
            Err(_) => {
                return Err(RuntimeError::Type);
            },
        };
        if parts.len() != 2 {
            return Err(RuntimeError::Syntax);
        }
        let template = parts[1].clone();
        let pattern = match &parts[0] {
            Datum::Pair(h, t) => {
                match crate::datum::symbol_name(&**h) {
                    Some(_) => (**t).clone(),
                    None => {
                        return Err(RuntimeError::Syntax);
                    },
                }
            },
            Datum::Boolean(_) | Datum::Number(_) | Datum::Character(_) | Datum::Symbol(_)
                | Datum::Str(_) | Datum::EmptyList | Datum::Vector(_, _) | Datum::Procedure(_)
                | Datum::SyntaxRule(_) | Datum::Ext(_) => {
                return Err(RuntimeError::Syntax);
            },
        };
        let variables = match crate::pattern::verify_pattern(&pattern, &keywords) {
            Ok(v) => v,
            Err(_) => {
                return Err(RuntimeError::Syntax);
            },
        };
        let template_syms = match crate::pattern::verify_template(&template) {
            Ok(v) => v,
            Err(_) => {
                return Err(RuntimeError::Syntax);
            },
        };
        // Snapshot the free variables of the template that are bound now.
        let mut free: Vec<(Rc<Vec<char>>, Datum)> = Vec::new();
        let mut j: usize = 0;
        while j < template_syms.len()
            invariant
                mach.wf(),
                env < mach.envs.frame_count(),
                j <= template_syms@.len(),
            decreases template_syms@.len() - j,
        {
            let sym = rc_clone(&template_syms[j]);
            if !name_in(&variables, &sym) {
                match mach.envs.get(env, &sym) {
                    Some(val) => {
                        free.push((sym, val));
                    },
                    None => {},
                }
            }
            j = j + 1;
        }
        proof {
            assert(flat_elems(dviews(args@)[i2 as int])[0] == dviews(parts@)[0]);
            assert(flat_elems(dviews(args@)[i2 as int])[1] == dviews(parts@)[1]);
            assert(dviews(parts@)[0] == dv(parts@[0]));
            assert(dviews(parts@)[1] == dv(parts@[1]));
            assert(rule_ok(dviews(args@)[i2 as int], kws));
        }
        rules.push(Rule { pattern, template, template_syms, free });
        i2 = i2 + 1;
    }
    let id = mach.fresh_id();
    let mac = Datum::SyntaxRule(Rc::new(Macro { id, keywords, rules }));
    let ghost mv = mac@;
    proof {
        assert(mv == DatumV::Syntax(id as nat));
    }
    let out: Vec<Instruction> = vec![Instruction::PushValue(mac)];
    proof {
        assert(iviews(out@) =~= seq![InstructionV::PushValue(DatumV::Syntax(id as nat))]);
    }
    Ok(out)
}

/// The hygienic rename of a base name: `<base>_hygienic_<k>`.
pub open spec fn hyg_text(base: Seq<char>, k: nat) -> Seq<char> {
    base + seq!['_', 'h', 'y', 'g', 'i', 'e', 'n', 'i', 'c', '_'] + crate::numtext::nat_text(k)
}

/// The chosen hygienic name for a base at a call site: the base itself
/// when it is unbound there, else `<base>_hygienic_<k>` for the least
/// positive `k` whose name is unbound.
pub open spec fn hygienic_fresh(
    envs: crate::environment::EnvArena,
    env: int,
    base: Seq<char>,
    chosen: Seq<char>,
) -> bool {
    if envs.lookup(env, base) is None {
        chosen == base
    } else {
        exists|k: nat|
            1 <= k && chosen == hyg_text(base, k) && envs.lookup(env, chosen) is None && (forall|
                j: nat,
            |
                1 <= j < k ==> envs.lookup(env, #[trigger] hyg_text(base, j)) is Some)
    }
}

/// A fresh name for hygienic renaming: the base name itself when unbound
/// at the call site, else `<base>_hygienic_<k>` for the least `k` that is
/// unbound.
#[verifier::loop_isolation(false)]
fn fresh_name(envs: &crate::environment::EnvArena, env: usize, base: &Vec<char>) -> (r: Result<
    Rc<Vec<char>>,
    RuntimeError,
>)
    requires
        envs.wf(),
        env < envs.frame_count(),
    ensures
        match r {
            Ok(n) => envs.lookup(env as int, n@) is None && hygienic_fresh(
                *envs,
                env as int,
                base@,
                n@,
            ),
            Err(e) => e == RuntimeError::Internal,
        },
{
    match envs.get(env, base) {
        Some(_) => {},
        None => {
            let n = copy_name(base);
            return Ok(Rc::new(n));
        },
    }
    let mut k: u64 = 1;
    while k < 0xffff_ffffu64
        invariant
            1 <= k,
            forall|j: nat|
                1 <= j < k ==> envs.lookup(env as int, #[trigger] hyg_text(base@, j)) is Some,
        decreases 0xffff_ffffu64 - k,
    {
        let mut cand = copy_name(base);
        cand.push('_');
        cand.push('h');
        cand.push('y');
        cand.push('g');
        cand.push('i');
        cand.push('e');
        cand.push('n');
        cand.push('i');
        cand.push('c');
        cand.push('_');
        let ghost stem = cand@;
        proof {
            assert(stem =~= base@ + seq!['_', 'h', 'y', 'g', 'i', 'e', 'n', 'i', 'c', '_']);
        }
        let digits = crate::numtext::format_i64(k as i64);
        let mut t: usize = 0;
        while t < digits.len()
            invariant
                t <= digits@.len(),
                cand@ =~= stem + digits@.subrange(0, t as int),
            decreases digits@.len() - t,
        {
            cand.push(digits[t]);
            proof {
                assert(cand@ =~= stem + digits@.subrange(0, t + 1));
            }
            t = t + 1;
        }
        proof {
            assert(digits@.subrange(0, digits@.len() as int) =~= digits@);
            assert(digits@ == crate::numtext::nat_text(k as nat));
            assert(cand@ =~= hyg_text(base@, k as nat));
        }
        match envs.get(env, &cand) {
            Some(_) => {},
            None => {
                proof {
                    assert(hygienic_fresh(*envs, env as int, base@, cand@));
                }
                return Ok(Rc::new(cand));
            },
        }
        k = k + 1;
    }
    Err(RuntimeError::Internal)
}

/// Looks a name up in a clause's free-variable snapshot (first match).
fn free_get(free: &Vec<(Rc<Vec<char>>, Datum)>, name: &Vec<char>) -> (r: Option<Datum>) {
    let mut i: usize = 0;
    while i < free.len()
        invariant
            i <= free@.len(),
        decreases free@.len() - i,
    {
        if names_eq(&free[i].0, name) {
            return Some(free[i].1.clone());
        }
        i = i + 1;
    }
    None
}

/// Expands a macro invocation: the clauses are tried in order; the first
/// whose pattern matches has its template hygienically renamed (template
/// symbols that are bound at the call site get fresh names) and applied to
/// the captures; the expansion is then evaluated in a fresh child frame
/// pre-populated with the renamed snapshot of the macro's free variables.
#[verifier::loop_isolation(false)]
pub fn expand_macro(mach: &mut Machine, env: usize, m: &Macro, form: &Datum) -> (r: Result<
    Vec<Instruction>,
    RuntimeError,
>)
    requires
        old(mach).wf(),
        env < old(mach).envs.frame_count(),
    ensures
        final(mach).wf(),
        final(mach).envs.frame_count() >= old(mach).envs.frame_count(),
        match r {
            Ok(v) => exists|i: int, cap: Map<Seq<char>, DatumV>, mp: Map<Seq<char>, DatumV>|
                {
                    &&& #[trigger] m.rules@[i] == m.rules@[i]
                    &&& #[trigger] cap.dom() == cap.dom()
                    &&& #[trigger] mp.dom() == mp.dom()
                    &&& 0 <= i < m.rules@.len()
                    &&& form@ matches DatumV::Pair(h, inp)
                    &&& *h is Sym
                    &&& crate::pattern::match_sp(
                        m.rules@[i].pattern@,
                        *inp,
                        name_seq(m.keywords@),
                        Map::empty(),
                    ) == Some(cap)
                    &&& (forall|j: int|
                        0 <= j < i ==> crate::pattern::match_sp(
                            (#[trigger] m.rules@[j]).pattern@,
                            *inp,
                            name_seq(m.keywords@),
                            Map::empty(),
                        ) is None)
                    &&& (forall|s: Seq<char>|
                        name_seq(m.rules@[i].template_syms@).contains(s)
                            ==> #[trigger] mp.dom().contains(s))
                    &&& mp.dom().contains(h->Sym_0)
                    &&& mp[h->Sym_0] == DatumV::Sym(h->Sym_0)
                    &&& (forall|s: Seq<char>|
                        #[trigger] mp.dom().contains(s) ==> mp[s] is Sym && (s == h->Sym_0
                            || hygienic_fresh(old(mach).envs, env as int, s, mp[s]->Sym_0)))
                    &&& crate::pattern::apply_tmpl(
                        crate::pattern::rename_tmpl(m.rules@[i].template@, mp),
                        cap,
                    ) matches Some(x)
                    &&& iviews(v@) =~= seq![
                        InstructionV::PushValue(x),
                        InstructionV::Evaluate(old(mach).envs.frame_count() as int, false),
                    ]
                },
            Err(e) => {
                &&& (e == RuntimeError::Syntax || e == RuntimeError::MatchFailure || e
                    == RuntimeError::Internal)
                &&& (e == RuntimeError::MatchFailure ==> (form@ matches DatumV::Pair(h, inp) && *h
                    is Sym && (forall|j: int|
                    0 <= j < m.rules@.len() ==> crate::pattern::match_sp(
                        (#[trigger] m.rules@[j]).pattern@,
                        *inp,
                        name_seq(m.keywords@),
                        Map::empty(),
                    ) is None)))
                &&& (e == RuntimeError::Syntax ==> !(form@ matches DatumV::Pair(h, _) && *h
                    is Sym) || exists|i: int|
                    0 <= i < m.rules@.len() && crate::pattern::match_sp(
                        (#[trigger] m.rules@[i]).pattern@,
                        *form@->Pair_1,
                        name_seq(m.keywords@),
                        Map::empty(),
                    ) is Some)
                &&& (e == RuntimeError::Internal ==> (form@ matches DatumV::Pair(h, _) && *h
                    is Sym) && exists|i: int|
                    0 <= i < m.rules@.len() && crate::pattern::match_sp(
                        (#[trigger] m.rules@[i]).pattern@,
                        *form@->Pair_1,
                        name_seq(m.keywords@),
                        Map::empty(),
                    ) is Some)
            },
        },
{
    // The invocation form must be (name operand ...).
    let (mname, input): (Rc<Vec<char>>, Datum) = match form {
        Datum::Pair(h, t) => {
            match crate::datum::symbol_name(&**h) {
                Some(nm) => (nm, (**t).clone()),
                None => {
                    return Err(RuntimeError::Syntax);
                },
            }
        },
        Datum::Boolean(_) | Datum::Number(_) | Datum::Character(_) | Datum::Symbol(_)
            | Datum::Str(_) | Datum::EmptyList | Datum::Vector(_, _) | Datum::Procedure(_)
            | Datum::SyntaxRule(_) | Datum::Ext(_) => {
            return Err(RuntimeError::Syntax);
        },
    };
    let ghost inputv = input@;
    let ghost mnamev = mname@;
    let ghost kws = name_seq(m.keywords@);
    let mut i: usize = 0;
    #[verifier::loop_isolation(false)]
    while i < m.rules.len()
        invariant
            mach.wf(),
            *mach == *old(mach),
            i <= m.rules@.len(),
            forall|j: int|
                0 <= j < i ==> crate::pattern::match_sp(
                    (#[trigger] m.rules@[j]).pattern@,
                    inputv,
                    kws,
                    Map::empty(),
                ) is None,
        decreases m.rules@.len() - i,
    {
        let rule = &m.rules[i];
        match crate::pattern::match_pattern(&rule.pattern, &input, &m.keywords) {
            Some(var_env) => {
                // Hygiene: rename template symbols that are bound at the
                // call site.
                let mut mappings = Bindings::new();
                let mut j: usize = 0;
                while j < rule.template_syms.len()
                    invariant
                        mach.wf(),
                        *mach == *old(mach),
                        env < mach.envs.frame_count(),
                        j <= rule.template_syms@.len(),
                        mappings.wf(),
                        forall|x: int|
                            0 <= x < j ==> mappings@.dom().contains(
                                #[trigger] rule.template_syms@[x]@,
                            ),
                        forall|s: Seq<char>|
                            #[trigger] mappings@.dom().contains(s) ==> mappings@[s] is Sym
                                && hygienic_fresh(
                                old(mach).envs,
                                env as int,
                                s,
                                mappings@[s]->Sym_0,
                            ),
                    decreases rule.template_syms@.len() - j,
                {
                    let sym = rc_clone(&rule.template_syms[j]);
                    let ghost symv = sym@;
                    let new_name = match fresh_name(&mach.envs, env, &sym) {
                        Ok(n) => n,
                        Err(e2) => {
                            proof {
                                assert(form@ matches DatumV::Pair(bh, binp) && *bh
                                    == DatumV::Sym(mnamev) && *binp == inputv);
                                assert(crate::pattern::match_sp(
                                    m.rules@[i as int].pattern@,
                                    inputv,
                                    name_seq(m.keywords@),
                                    Map::empty(),
                                ) is Some);
                            }
                            return Err(e2);
                        },
                    };
                    let ghost nn = new_name@;
                    let nd = Datum::Symbol(new_name);
                    proof {
                        assert(nd@ == DatumV::Sym(nn));
                        assert(hygienic_fresh(old(mach).envs, env as int, symv, nn));
                    }
                    let ghost prevm = mappings@;
                    let ghost ndv = nd@;
                    mappings.define(sym, nd);
                    proof {
                        assert forall|s: Seq<char>|
                            #[trigger] mappings@.dom().contains(s) implies mappings@[s] is Sym
                            && hygienic_fresh(
                            old(mach).envs,
                            env as int,
                            s,
                            mappings@[s]->Sym_0,
                        ) by {
                            if s != symv {
                                assert(prevm.dom().contains(s));
                                assert(mappings@[s] == prevm[s]);
                            } else {
                                assert(mappings@[s] == ndv);
                            }
                        }
                    }
                    j = j + 1;
                }
                let m2 = rc_clone(&mname);
                let ghost mpre = mappings@;
                let nd2 = Datum::Symbol(rc_clone(&mname));
                proof {
                    assert(nd2@ == DatumV::Sym(mnamev));
                }
                let ghost nd2v = nd2@;
                mappings.define(m2, nd2);
                proof {
                    assert(mappings@[mnamev] == nd2v);
                    assert forall|s: Seq<char>|
                        #[trigger] mappings@.dom().contains(s) implies mappings@[s] is Sym && (s
                        == mnamev || hygienic_fresh(
                        old(mach).envs,
                        env as int,
                        s,
                        mappings@[s]->Sym_0,
                    )) by {
                        if s != mnamev {
                            assert(mpre.dom().contains(s));
                            assert(mappings@[s] == mpre[s]);
                        }
                    }
                    assert forall|s: Seq<char>|
                        name_seq(rule.template_syms@).contains(s) implies mappings@.dom().contains(
                        s,
                    ) by {
                        let x = choose|x: int|
                            0 <= x < name_seq(rule.template_syms@).len() && name_seq(
                                rule.template_syms@,
                            )[x] == s;
                        assert(rule.template_syms@[x]@ == s);
                        if s != mnamev {
                            assert(mpre.dom().contains(s));
                        }
                    }
                }
                let renamed = crate::pattern::rename_template(&rule.template, &mappings);
                // The expansion evaluates in a fresh child of the caller's
                // frame, holding the renamed snapshot of free variables.
                let eval_env = mach.envs.new_child(env);
                let mut j2: usize = 0;
                while j2 < mappings.len()
                    invariant
                        mach.wf(),
                        j2 <= mappings.entries().len(),
                        eval_env < mach.envs.frame_count(),
                        mappings.wf(),
                    decreases mappings.entries().len() - j2,
                {
                    let old_name = mappings.name_at(j2);
                    let new_name_d = mappings.value_at(j2);
                    match crate::datum::symbol_name(&new_name_d) {
                        Some(new_name) => {
                            match free_get(&rule.free, &old_name) {
                                Some(d) => {
                                    mach.envs.define(eval_env, new_name, d);
                                },
                                None => {},
                            }
                        },
                        None => {},
                    }
                    j2 = j2 + 1;
                }
                let result = crate::pattern::apply_template(&renamed, &var_env)?;
                let ghost resultv = result@;
                let out: Vec<Instruction> = vec![
                    Instruction::PushValue(result),
                    Instruction::Evaluate(eval_env, false),
                ];
                proof {
                    assert(iviews(out@) =~= seq![
                        InstructionV::PushValue(resultv),
                        InstructionV::Evaluate(eval_env as int, false),
                    ]);
                    let gi = i as int;
                    let cap = var_env@;
                    let mp = mappings@;
                    assert(rule == &m.rules@[gi]);
                    assert(mp.dom().contains(mnamev));
                    assert(mp[mnamev] == DatumV::Sym(mnamev));
                    assert(form@ matches DatumV::Pair(bh, binp) && *bh == DatumV::Sym(mnamev)
                        && *binp == inputv);
                    assert forall|s: Seq<char>|
                        name_seq(m.rules@[gi].template_syms@).contains(s) implies mp.dom().contains(
                        s,
                    ) by {
                        assert(name_seq(rule.template_syms@).contains(s));
                    }
                    assert({
                        &&& m.rules@[gi] == m.rules@[gi]
                        &&& cap.dom() == cap.dom()
                        &&& mp.dom() == mp.dom()
                        &&& 0 <= gi < m.rules@.len()
                        &&& form@ matches DatumV::Pair(h, inp)
                        &&& *h is Sym
                        &&& crate::pattern::match_sp(
                            m.rules@[gi].pattern@,
                            *inp,
                            name_seq(m.keywords@),
                            Map::empty(),
                        ) == Some(cap)
                        &&& (forall|j: int|
                            0 <= j < gi ==> crate::pattern::match_sp(
                                (#[trigger] m.rules@[j]).pattern@,
                                *inp,
                                name_seq(m.keywords@),
                                Map::empty(),
                            ) is None)
                        &&& (forall|s: Seq<char>|
                            name_seq(m.rules@[gi].template_syms@).contains(s)
                                ==> #[trigger] mp.dom().contains(s))
                        &&& mp.dom().contains(h->Sym_0)
                        &&& mp[h->Sym_0] == DatumV::Sym(h->Sym_0)
                        &&& (forall|s: Seq<char>|
                            #[trigger] mp.dom().contains(s) ==> mp[s] is Sym && (s == h->Sym_0
                                || hygienic_fresh(old(mach).envs, env as int, s, mp[s]->Sym_0)))
                        &&& crate::pattern::apply_tmpl(
                            crate::pattern::rename_tmpl(m.rules@[gi].template@, mp),
                            cap,
                        ) matches Some(x)
                        &&& iviews(out@) =~= seq![
                            InstructionV::PushValue(x),
                            InstructionV::Evaluate(old(mach).envs.frame_count() as int, false),
                        ]
                    });
                }
                return Ok(out);
            },
            None => {},
        }
        i = i + 1;
    }
    Err(RuntimeError::MatchFailure)
}

/// Dispatches a special form by its identifier.
pub fn special_apply(op: SpecialOp, mach: &mut Machine, env: usize, args: &Vec<Datum>) -> (r:
    Result<Vec<Instruction>, RuntimeError>)
    requires
        old(mach).wf(),
        env < old(mach).envs.frame_count(),
    ensures
        final(mach).wf(),
        env < final(mach).envs.frame_count(),
        final(mach).envs.frame_count() >= old(mach).envs.frame_count(),
        op == SpecialOp::Begin ==> ({
            &&& *final(mach) == *old(mach)
            &&& match r {
                Ok(v) => args@.len() >= 1 && iviews(v@) == body_instrs(dviews(args@), env as int),
                Err(e) => args@.len() == 0 && e == RuntimeError::Arity,
            }
        }),
        op == SpecialOp::Define ==> ({
            &&& final(mach).envs == old(mach).envs
            &&& final(mach).tables == old(mach).tables
            &&& match r {
                Ok(v) => {
                    &&& args@.len() >= 2
                    &&& match args@[0]@ {
                        DatumV::Sym(name) => args@.len() == 2 && iviews(v@) =~= seq![
                            InstructionV::PushValue(args@[1]@),
                            InstructionV::Evaluate(env as int, false),
                            InstructionV::Define(env as int, name, DefineKind::Define),
                            InstructionV::PushValue(DatumV::Nil),
                        ],
                        DatumV::Pair(h, t) => {
                            &&& *h matches DatumV::Sym(name)
                            &&& parse_formals(*t) matches Some(fr)
                            &&& iviews(v@) =~= seq![
                                InstructionV::PushValue(
                                    DatumV::Proc(
                                        ProcV::Scheme(
                                            ClosureV {
                                                id: old(mach).next_id as nat,
                                                formals: fr.0,
                                                rest: fr.1,
                                                body: Box::new(
                                                    list_of(dviews(args@).drop_first()),
                                                ),
                                                env: env as int,
                                            },
                                        ),
                                    ),
                                ),
                                InstructionV::Define(env as int, h->Sym_0, DefineKind::Define),
                                InstructionV::PushValue(DatumV::Nil),
                            ]
                        },
                        _ => false,
                    }
                },
                Err(e) => {
                    if args@.len() < 2 {
                        e == RuntimeError::Arity
                    } else {
                        match args@[0]@ {
                            DatumV::Sym(_) => e == RuntimeError::Arity && args@.len() != 2,
                            DatumV::Pair(h, t) => e == RuntimeError::Syntax && (!(*h is Sym)
                                || parse_formals(*t) is None),
                            _ => e == RuntimeError::Syntax,
                        }
                    }
                },
            }
        }),
        op == SpecialOp::DefineSyntax ==> ({
            &&& *final(mach) == *old(mach)
            &&& match r {
                Ok(v) => args@.len() == 2 && (args@[0]@ matches DatumV::Sym(name) && iviews(v@) =~=
                    seq![
                    InstructionV::PushValue(args@[1]@),
                    InstructionV::Evaluate(env as int, false),
                    InstructionV::Define(env as int, name, DefineKind::DefineSyntax),
                    InstructionV::PushValue(DatumV::Nil),
                ]),
                Err(e) => {
                    if args@.len() != 2 {
                        e == RuntimeError::Arity
                    } else {
                        !(args@[0]@ is Sym) && e == RuntimeError::Type
                    }
                },
            }
        }),
        op == SpecialOp::Eval ==> ({
            &&& *final(mach) == *old(mach)
            &&& match r {
                Ok(v) => args@.len() == 1 && iviews(v@) =~= seq![
                    InstructionV::PushValue(args@[0]@),
                    InstructionV::Evaluate(env as int, false),
                    InstructionV::Evaluate(env as int, false),
                ],
                Err(e) => args@.len() != 1 && e == RuntimeError::Arity,
            }
        }),
        op == SpecialOp::If ==> ({
            &&& *final(mach) == *old(mach)
            &&& match r {
                Ok(v) => (args@.len() == 2 || args@.len() == 3) && iviews(v@) =~= seq![
                    InstructionV::PushValue(args@[0]@),
                    InstructionV::Evaluate(env as int, false),
                    InstructionV::JumpIfFalse(3),
                    InstructionV::PushValue(args@[1]@),
                    InstructionV::Evaluate(env as int, true),
                    InstructionV::Return,
                ] + (if args@.len() == 3 {
                    seq![
                        InstructionV::PushValue(args@[2]@),
                        InstructionV::Evaluate(env as int, true),
                    ]
                } else {
                    seq![InstructionV::PushValue(DatumV::Bool(false))]
                }),
                Err(e) => args@.len() != 2 && args@.len() != 3 && e == RuntimeError::Arity,
            }
        }),
        op == SpecialOp::Lambda ==> ({
            &&& final(mach).envs == old(mach).envs
            &&& final(mach).tables == old(mach).tables
            &&& match r {
                Ok(v) => {
                    &&& args@.len() >= 2
                    &&& parse_formals(args@[0]@) matches Some(fr)
                    &&& iviews(v@) =~= seq![
                        InstructionV::PushValue(
                            DatumV::Proc(
                                ProcV::Scheme(
                                    ClosureV {
                                        id: old(mach).next_id as nat,
                                        formals: fr.0,
                                        rest: fr.1,
                                        body: Box::new(list_of(dviews(args@).drop_first())),
                                        env: env as int,
                                    },
                                ),
                            ),
                        ),
                    ]
                },
                Err(e) => {
                    if args@.len() < 2 {
                        e == RuntimeError::Arity
                    } else {
                        parse_formals(args@[0]@) is None && e == RuntimeError::Syntax
                    }
                },
            }
        }),
        op == SpecialOp::Letrec ==> ({
            &&& final(mach).wf()
            &&& final(mach).tables == old(mach).tables
            &&& final(mach).envs.frame_count() >= old(mach).envs.frame_count()
            &&& match r {
                Ok(v) => {
                    let child = old(mach).envs.frame_count() as int;
                    &&& args@.len() >= 2
                    &&& is_proper(args@[0]@)
                    &&& parse_binds(flat_elems(args@[0]@), 0) matches Some(bs)
                    &&& iviews(v@) == bind_instrs(bs, child) + body_instrs(
                        dviews(args@).drop_first(),
                        child,
                    )
                    &&& final(mach).envs.frame_count() == old(mach).envs.frame_count() + 1
                    &&& final(mach).envs.parent_of(child) == Some(env)
                    &&& forall|e: int, n: Seq<char>|
                        0 <= e < old(mach).envs.frame_count() ==> #[trigger] final(mach).envs.lookup(e, n) == old(mach).envs.lookup(e, n)
                },
                Err(e) => {
                    if args@.len() < 2 {
                        e == RuntimeError::Syntax
                    } else {
                        e == RuntimeError::Syntax && (!is_proper(args@[0]@) || parse_binds(
                            flat_elems(args@[0]@),
                            0,
                        ) is None)
                    }
                },
            }
        }),
        op == SpecialOp::Quote ==> ({
            &&& *final(mach) == *old(mach)
            &&& match r {
                Ok(v) => args@.len() == 1 && iviews(v@) =~= seq![InstructionV::PushValue(args@[0]@)],
                Err(e) => args@.len() != 1 && e == RuntimeError::Arity,
            }
        }),
        op == SpecialOp::Assign ==> ({
            &&& *final(mach) == *old(mach)
            &&& match r {
                Ok(v) => args@.len() == 2 && (args@[0]@ matches DatumV::Sym(name) && iviews(v@) =~=
                    seq![
                    InstructionV::PushValue(args@[1]@),
                    InstructionV::Evaluate(env as int, false),
                    InstructionV::Define(env as int, name, DefineKind::Assign),
                    InstructionV::PushValue(DatumV::Nil),
                ]),
                Err(e) => {
                    if args@.len() != 2 {
                        e == RuntimeError::Arity
                    } else {
                        !(args@[0]@ is Sym) && e == RuntimeError::Type
                    }
                },
            }
        }),
        op == SpecialOp::SyntaxRules ==> ({
            &&& final(mach).envs == old(mach).envs
            &&& final(mach).tables == old(mach).tables
            &&& final(mach).wf()
            &&& match r {
                Ok(v) => {
                    &&& args@.len() >= 2
                    &&& keywords_ok(args@[0]@)
                    &&& forall|i: int|
                        1 <= i < args@.len() ==> rule_ok(
                            #[trigger] dviews(args@)[i],
                            sym_names(flat_elems(args@[0]@)),
                        )
                    &&& iviews(v@) =~= seq![
                        InstructionV::PushValue(DatumV::Syntax(old(mach).next_id as nat)),
                    ]
                },
                Err(e) => {
                    &&& (e == RuntimeError::Syntax || e == RuntimeError::Type)
                    &&& !({
                        &&& args@.len() >= 2
                        &&& keywords_ok(args@[0]@)
                        &&& forall|i: int|
                            1 <= i < args@.len() ==> rule_ok(
                                #[trigger] dviews(args@)[i],
                                sym_names(flat_elems(args@[0]@)),
                            )
                    })
                },
            }
        }),
{
    match op {
        SpecialOp::Begin => special_form_begin(mach, env, args),
        SpecialOp::Define => special_form_define(mach, env, args),
        SpecialOp::DefineSyntax => special_form_define_syntax(mach, env, args),
        SpecialOp::Eval => special_form_eval(mach, env, args),
        SpecialOp::If => special_form_if(mach, env, args),
        SpecialOp::Lambda => special_form_lambda(mach, env, args),
        SpecialOp::Letrec => special_form_letrec(mach, env, args),
        SpecialOp::Quote => special_form_quote(mach, env, args),
        SpecialOp::Assign => special_form_set(mach, env, args),
        SpecialOp::SyntaxRules => special_form_syntax_rules(mach, env, args),
    }
}

/// Dispatches a built-in procedure by its identifier.  Built-ins never
/// touch the environments.
pub fn native_apply(op: NativeOp, mach: &mut Machine, args: &Vec<Datum>) -> (r: Result<
    Datum,
    RuntimeError,
>)
    ensures
        final(mach).envs == old(mach).envs,
        op == NativeOp::Add ==> ({
            &&& match add_spec(dviews(args@), 0, 0) {
            Ok(n) => r matches Ok(d) && d@ == DatumV::Num(n),
            Err(e) => r == Err::<Datum, RuntimeError>(e),
        }
        }),
        op == NativeOp::Subtract ==> ({
            &&& match subtract_spec(dviews(args@)) {
            Ok(n) => r matches Ok(d) && d@ == DatumV::Num(n),
            Err(e) => r == Err::<Datum, RuntimeError>(e),
        }
        }),
        op == NativeOp::Multiply ==> ({
            &&& match mul_spec(dviews(args@), 0, 1) {
            Ok(n) => r matches Ok(d) && d@ == DatumV::Num(n),
            Err(e) => r == Err::<Datum, RuntimeError>(e),
        }
        }),
        op == NativeOp::NumberEq ==> ({
            &&& match equals_spec(dviews(args@)) {
            Ok(b) => r matches Ok(d) && d@ == DatumV::Bool(b),
            Err(e) => r == Err::<Datum, RuntimeError>(e),
        }
        }),
        op == NativeOp::Append ==> ({
            &&& args@.len() == 0 ==> (r matches Ok(d) && d@ == DatumV::Nil)
            &&& args@.len() >= 1 ==> match append_spec(dviews(args@), 0, Seq::empty()) {
            Ok(s) => r matches Ok(d) && d@ == improper_of(s),
            Err(e) => r == Err::<Datum, RuntimeError>(e),
        }
        }),
        op == NativeOp::Car ==> ({
            &&& match r {
            Ok(d) => args@.len() == 1 && (args@[0]@ matches DatumV::Pair(a, _) && d@ == *a),
            Err(e) => {
                if args@.len() != 1 {
                    e == RuntimeError::Arity
                } else {
                    !(args@[0]@ is Pair) && e == RuntimeError::Type
                }
            },
        }
        }),
        op == NativeOp::Cdr ==> ({
            &&& match r {
            Ok(d) => args@.len() == 1 && (args@[0]@ matches DatumV::Pair(_, b) && d@ == *b),
            Err(e) => {
                if args@.len() != 1 {
                    e == RuntimeError::Arity
                } else {
                    !(args@[0]@ is Pair) && e == RuntimeError::Type
                }
            },
        }
        }),
        op == NativeOp::Cons ==> ({
            &&& match r {
            Ok(d) => args@.len() == 2 && d@ == DatumV::Pair(
                Box::new(args@[0]@),
                Box::new(args@[1]@),
            ),
            Err(e) => args@.len() != 2 && e == RuntimeError::Arity,
        }
        }),
        op == NativeOp::Eqv ==> ({
            &&& match r {
            Ok(d) => args@.len() == 2 && d@ == DatumV::Bool(eqv_spec(args@[0]@, args@[1]@)),
            Err(e) => args@.len() != 2 && e == RuntimeError::Arity,
        }
        }),
        op == NativeOp::Equal ==> ({
            &&& match r {
            Ok(d) => args@.len() == 2 && d@ == DatumV::Bool(equal_spec(args@[0]@, args@[1]@)),
            Err(e) => args@.len() != 2 && e == RuntimeError::Arity,
        }
        }),
        op == NativeOp::HashRef ==> ({
            &&& match r {
            Ok(d) => {
                &&& args@.len() == 2
                &&& args@[0]@ matches DatumV::Ext(h)
                &&& args@[0]@->Ext_0 < final(mach).tables@.len()
                &&& (if !hashable_key(args@[1]@) {
                    d@ == DatumV::Bool(false)
                } else {
                    match tbl_find(tviews(final(mach).tables@[args@[0]@->Ext_0 as int]@), args@[1]@) {
                        Some(v) => d@ == v,
                        None => d@ == DatumV::Bool(false),
                    }
                })
            },
            Err(e) => {
                if args@.len() != 2 {
                    e == RuntimeError::Arity
                } else if !(args@[0]@ is Ext) {
                    e == RuntimeError::Type
                } else {
                    e == RuntimeError::Internal && args@[0]@->Ext_0 >= final(mach).tables@.len()
                }
            },
        }
        }),
        op == NativeOp::HashPut ==> ({
            &&& final(mach).envs == old(mach).envs
            &&& match r {
            Ok(d) => {
                &&& args@.len() == 3
                &&& args@[0]@ matches DatumV::Ext(h)
                &&& hashable_key(args@[1]@)
                &&& d@ == args@[2]@
                &&& final(mach).tables@.len() == old(mach).tables@.len()
                &&& 0 <= args@[0]@->Ext_0 < old(mach).tables@.len()
                &&& tviews(final(mach).tables@[args@[0]@->Ext_0 as int]@) == tbl_put(
                    tviews(old(mach).tables@[args@[0]@->Ext_0 as int]@),
                    args@[1]@,
                    args@[2]@,
                )
                &&& forall|i: int|
                    0 <= i < old(mach).tables@.len() && i != args@[0]@->Ext_0 as int ==> final(mach).tables@[i] == old(mach).tables@[i]
            },
            Err(e) => {
                final(mach).tables == old(mach).tables && (if args@.len() != 3 {
                    e == RuntimeError::Arity
                } else if !(args@[0]@ is Ext) {
                    e == RuntimeError::Type
                } else if !hashable_key(args@[1]@) {
                    e == RuntimeError::UnsupportedKey
                } else {
                    e == RuntimeError::Internal && args@[0]@->Ext_0 >= old(mach).tables@.len()
                })
            },
        }
        }),
        op == NativeOp::Length ==> ({
            &&& match r {
            Ok(d) => args@.len() == 1 && is_proper(args@[0]@) && d@ == DatumV::Num(
                flat_elems(args@[0]@).len() as int,
            ),
            Err(e) => {
                if args@.len() != 1 {
                    e == RuntimeError::Arity
                } else if !is_proper(args@[0]@) {
                    e == RuntimeError::Type
                } else {
                    flat_elems(args@[0]@).len() > i64::MAX && e == RuntimeError::Domain
                }
            },
        }
        }),
        op == NativeOp::List ==> ({
            &&& r matches Ok(d) && d@ == list_of(dviews(args@))
        }),
        op == NativeOp::ListToString ==> ({
            &&& match r {
            Ok(d) => {
                &&& args@.len() == 1
                &&& is_proper(args@[0]@)
                &&& forall|i: int|
                    0 <= i < flat_elems(args@[0]@).len() ==> flat_elems(args@[0]@)[i] is Char
                &&& d@ == DatumV::Str(datum_chars(flat_elems(args@[0]@)))
            },
            Err(e) => {
                if args@.len() != 1 {
                    e == RuntimeError::Arity
                } else {
                    e == RuntimeError::Type && (!is_proper(args@[0]@) || exists|i: int|
                        0 <= i < flat_elems(args@[0]@).len() && !(flat_elems(args@[0]@)[i]
                            is Char))
                }
            },
        }
        }),
        op == NativeOp::MakeHashTable ==> ({
            &&& final(mach).envs == old(mach).envs
            &&& match r {
            Ok(d) => {
                &&& args@.len() == 0
                &&& d@ == DatumV::Ext(old(mach).tables@.len() as nat)
                &&& final(mach).tables@.len() == old(mach).tables@.len() + 1
                &&& tviews(final(mach).tables@[old(mach).tables@.len() as int]@)
                    =~= Seq::<(DatumV, DatumV)>::empty()
                &&& forall|i: int|
                    0 <= i < old(mach).tables@.len() ==> final(mach).tables@[i] == old(mach).tables@[i]
            },
            Err(e) => args@.len() != 0 && e == RuntimeError::Arity && final(mach).tables == old(mach).tables,
        }
        }),
        op == NativeOp::NullP ==> ({
            &&& match r {
            Ok(d) => args@.len() == 1 && d@ == DatumV::Bool(args@[0]@ is Nil),
            Err(e) => args@.len() != 1 && e == RuntimeError::Arity,
        }
        }),
        op == NativeOp::Reverse ==> ({
            &&& match r {
            Ok(d) => args@.len() == 1 && (args@[0]@ is Nil || args@[0]@ is Pair) && d@ == list_of(
                flat_elems(args@[0]@).reverse(),
            ),
            Err(e) => {
                if args@.len() != 1 {
                    e == RuntimeError::Arity
                } else {
                    !(args@[0]@ is Nil) && !(args@[0]@ is Pair) && e == RuntimeError::Type
                }
            },
        }
        }),
        op == NativeOp::StringEqP ==> ({
            &&& match r {
            Ok(d) => args@.len() == 2 && (args@[0]@ matches DatumV::Str(x) && (args@[1]@ matches
                DatumV::Str(y) && d@ == DatumV::Bool(x == y))),
            Err(e) => {
                if args@.len() != 2 {
                    e == RuntimeError::Arity
                } else {
                    (!(args@[0]@ is Str) || !(args@[1]@ is Str)) && e == RuntimeError::Type
                }
            },
        }
        }),
        op == NativeOp::StringAppend ==> ({
            &&& match r {
            Ok(d) => args@.len() == 2 && (args@[0]@ matches DatumV::Str(x) && (args@[1]@ matches
                DatumV::Str(y) && d@ == DatumV::Str(x + y))),
            Err(e) => {
                if args@.len() != 2 {
                    e == RuntimeError::Arity
                } else {
                    (!(args@[0]@ is Str) || !(args@[1]@ is Str)) && e == RuntimeError::Type
                }
            },
        }
        }),
        op == NativeOp::StringContains ==> ({
            &&& match r {
            Ok(d) => args@.len() == 2 && (args@[0]@ matches DatumV::Str(h) && (args@[1]@ matches
                DatumV::Str(n) && (match d@ {
                DatumV::Num(i) => is_match_at(h, n, i) && (forall|j: int|
                    0 <= j < i ==> !is_match_at(h, n, j)),
                DatumV::Bool(b) => !b && (forall|j: int| !is_match_at(h, n, j)),
                _ => false,
            }))),
            Err(e) => {
                if args@.len() != 2 {
                    e == RuntimeError::Arity
                } else if !(args@[0]@ is Str) || !(args@[1]@ is Str) {
                    e == RuntimeError::Type
                } else {
                    e == RuntimeError::Domain && args@[0]@->Str_0.len() > i64::MAX
                }
            },
        }
        }),
        op == NativeOp::StringLength ==> ({
            &&& match r {
            Ok(d) => args@.len() == 1 && (args@[0]@ matches DatumV::Str(x) && d@ == DatumV::Num(
                x.len() as int,
            )),
            Err(e) => {
                if args@.len() != 1 {
                    e == RuntimeError::Arity
                } else if !(args@[0]@ is Str) {
                    e == RuntimeError::Type
                } else {
                    e == RuntimeError::Domain && args@[0]@->Str_0.len() > i64::MAX
                }
            },
        }
        }),
        op == NativeOp::StringPrefixP ==> ({
            &&& match r {
            Ok(d) => args@.len() == 2 && (args@[0]@ matches DatumV::Str(p) && (args@[1]@ matches
                DatumV::Str(x) && d@ == DatumV::Bool(is_match_at(x, p, 0)))),
            Err(e) => {
                if args@.len() != 2 {
                    e == RuntimeError::Arity
                } else {
                    (!(args@[0]@ is Str) || !(args@[1]@ is Str)) && e == RuntimeError::Type
                }
            },
        }
        }),
        op == NativeOp::StringSplit ==> ({
            &&& match r {
            Ok(d) => args@.len() == 2 && (args@[0]@ matches DatumV::Str(x) && (args@[1]@ matches
                DatumV::Char(c) && d@ == list_of(seg_datums(split_spec(x, c))))),
            Err(e) => {
                if args@.len() != 2 {
                    e == RuntimeError::Arity
                } else {
                    (!(args@[0]@ is Str) || !(args@[1]@ is Char)) && e == RuntimeError::Type
                }
            },
        }
        }),
        op == NativeOp::StringToList ==> ({
            &&& match r {
            Ok(d) => args@.len() == 1 && (args@[0]@ matches DatumV::Str(x) && d@ == char_list(x)),
            Err(e) => {
                if args@.len() != 1 {
                    e == RuntimeError::Arity
                } else {
                    !(args@[0]@ is Str) && e == RuntimeError::Type
                }
            },
        }
        }),
        op == NativeOp::StringToNumber ==> ({
            &&& match r {
            Ok(d) => args@.len() == 1 && (args@[0]@ matches DatumV::Str(x) && numeral_shape(x)
                && i64::MIN <= numeral_val(x) <= i64::MAX && d@ == DatumV::Num(numeral_val(x))),
            Err(e) => {
                if args@.len() != 1 {
                    e == RuntimeError::Arity
                } else if !(args@[0]@ is Str) {
                    e == RuntimeError::Type
                } else {
                    e == RuntimeError::Domain && (args@[0]@ matches DatumV::Str(x) && !(
                    numeral_shape(x) && i64::MIN <= numeral_val(x) <= i64::MAX))
                }
            },
        }
        }),
        op == NativeOp::StringToSymbol ==> ({
            &&& match r {
            Ok(d) => args@.len() == 1 && (args@[0]@ matches DatumV::Str(x) && d@ == DatumV::Sym(
                x,
            )),
            Err(e) => {
                if args@.len() != 1 {
                    e == RuntimeError::Arity
                } else {
                    !(args@[0]@ is Str) && e == RuntimeError::Type
                }
            },
        }
        }),
        op == NativeOp::Substring ==> ({
            &&& match r {
            Ok(d) => {
                &&& (args@.len() == 2 || args@.len() == 3)
                &&& args@[0]@ matches DatumV::Str(x)
                &&& args@[1]@ matches DatumV::Num(start)
                &&& {
                    let end = if args@.len() == 3 {
                        args@[2]@->Num_0
                    } else {
                        args@[0]@->Str_0.len() as int
                    };
                    &&& 0 <= args@[1]@->Num_0 <= end <= args@[0]@->Str_0.len()
                    &&& d@ == DatumV::Str(args@[0]@->Str_0.subrange(args@[1]@->Num_0, end))
                }
            },
            Err(e) => {
                if args@.len() != 2 && args@.len() != 3 {
                    e == RuntimeError::Arity
                } else if !(args@[0]@ is Str) || !(args@[1]@ is Num) || (args@.len() == 3 && !(
                args@[2]@ is Num)) {
                    e == RuntimeError::Type
                } else {
                    let sv = args@[0]@->Str_0;
                    let start = args@[1]@->Num_0;
                    let end = if args@.len() == 3 {
                        args@[2]@->Num_0
                    } else {
                        sv.len() as int
                    };
                    e == RuntimeError::Domain && (!(0 <= start <= end <= sv.len()) || (args@.len()
                        == 2 && sv.len() > i64::MAX))
                }
            },
        }
        }),
        op == NativeOp::SymbolToString ==> ({
            &&& match r {
            Ok(d) => args@.len() == 1 && (args@[0]@ matches DatumV::Sym(x) && d@ == DatumV::Str(
                x,
            )),
            Err(e) => {
                if args@.len() != 1 {
                    e == RuntimeError::Arity
                } else {
                    !(args@[0]@ is Sym) && e == RuntimeError::Type
                }
            },
        }
        }),
        op == NativeOp::BooleanP ==> ({
            &&& match r {
            Ok(d) => args@.len() == 1 && d@ == DatumV::Bool(args@[0]@ is Bool),
            Err(e) => args@.len() != 1 && e == RuntimeError::Arity,
        }
        }),
        op == NativeOp::CharP ==> ({
            &&& match r {
            Ok(d) => args@.len() == 1 && d@ == DatumV::Bool(args@[0]@ is Char),
            Err(e) => args@.len() != 1 && e == RuntimeError::Arity,
        }
        }),
        op == NativeOp::NumberP ==> ({
            &&& match r {
            Ok(d) => args@.len() == 1 && d@ == DatumV::Bool(args@[0]@ is Num),
            Err(e) => args@.len() != 1 && e == RuntimeError::Arity,
        }
        }),
        op == NativeOp::PairP ==> ({
            &&& match r {
            Ok(d) => args@.len() == 1 && d@ == DatumV::Bool(args@[0]@ is Pair),
            Err(e) => args@.len() != 1 && e == RuntimeError::Arity,
        }
        }),
        op == NativeOp::ProcedureP ==> ({
            &&& match r {
            Ok(d) => args@.len() == 1 && d@ == DatumV::Bool(args@[0]@ is Proc),
            Err(e) => args@.len() != 1 && e == RuntimeError::Arity,
        }
        }),
        op == NativeOp::StringP ==> ({
            &&& match r {
            Ok(d) => args@.len() == 1 && d@ == DatumV::Bool(args@[0]@ is Str),
            Err(e) => args@.len() != 1 && e == RuntimeError::Arity,
        }
        }),
        op == NativeOp::SymbolP ==> ({
            &&& match r {
            Ok(d) => args@.len() == 1 && d@ == DatumV::Bool(args@[0]@ is Sym),
            Err(e) => args@.len() != 1 && e == RuntimeError::Arity,
        }
        }),
        op == NativeOp::VectorP ==> ({
            &&& match r {
            Ok(d) => args@.len() == 1 && d@ == DatumV::Bool(args@[0]@ is Vector),
            Err(e) => args@.len() != 1 && e == RuntimeError::Arity,
        }
        }),
{
    match op {
        NativeOp::Add => native_add(args),
        NativeOp::Subtract => native_subtract(args),
        NativeOp::Multiply => native_multiply(args),
        NativeOp::NumberEq => native_equals(args),
        NativeOp::Append => native_append(args),
        NativeOp::Car => native_car(args),
        NativeOp::Cdr => native_cdr(args),
        NativeOp::Cons => native_cons(args),
        NativeOp::Eqv => native_eqv_p(args),
        NativeOp::Equal => native_equal_p(args),
        NativeOp::HashRef => native_hash_ref(mach, args),
        NativeOp::HashPut => native_hash_set(mach, args),
        NativeOp::Length => native_length(args),
        NativeOp::List => native_list(args),
        NativeOp::ListToString => native_list_to_string(args),
        NativeOp::MakeHashTable => native_make_hash_table(mach, args),
        NativeOp::NullP => native_null_p(args),
        NativeOp::Reverse => native_reverse(args),
        NativeOp::StringEqP => native_string_equal_p(args),
        NativeOp::StringAppend => native_string_append(args),
        NativeOp::StringContains => native_string_contains(args),
        NativeOp::StringLength => native_string_length(args),
        NativeOp::StringPrefixP => native_string_prefix_p(args),
        NativeOp::StringSplit => native_string_split(args),
        NativeOp::StringToList => native_string_to_list(args),
        NativeOp::StringToNumber => native_string_to_number(args),
        NativeOp::StringToSymbol => native_string_to_symbol(args),
        NativeOp::Substring => native_substring(args),
        NativeOp::SymbolToString => native_symbol_to_string(args),
        NativeOp::BooleanP => native_boolean_p(args),
        NativeOp::CharP => native_char_p(args),
        NativeOp::NumberP => native_number_p(args),
        NativeOp::PairP => native_pair_p(args),
        NativeOp::ProcedureP => native_procedure_p(args),
        NativeOp::StringP => native_string_p(args),
        NativeOp::SymbolP => native_symbol_p(args),
        NativeOp::VectorP => native_vector_p(args),
    }
}

/// The built-in bindings of the global environment: each name with its
/// special form or native procedure.
pub fn get_builtins() -> (r: Vec<(&'static str, Datum)>)
    ensures
        r@.len() == 48,
        r@[0].0@ == "begin"@ && r@[0].1@ == DatumV::Proc(ProcV::SpecialForm(SpecialOp::Begin)),
        r@[1].0@ == "define"@ && r@[1].1@ == DatumV::Proc(ProcV::SpecialForm(SpecialOp::Define)),
        r@[2].0@ == "define-syntax"@ && r@[2].1@ == DatumV::Proc(ProcV::SpecialForm(SpecialOp::DefineSyntax)),
        r@[3].0@ == "eval"@ && r@[3].1@ == DatumV::Proc(ProcV::SpecialForm(SpecialOp::Eval)),
        r@[4].0@ == "if"@ && r@[4].1@ == DatumV::Proc(ProcV::SpecialForm(SpecialOp::If)),
        r@[5].0@ == "lambda"@ && r@[5].1@ == DatumV::Proc(ProcV::SpecialForm(SpecialOp::Lambda)),
        r@[6].0@ == "letrec"@ && r@[6].1@ == DatumV::Proc(ProcV::SpecialForm(SpecialOp::Letrec)),
        r@[7].0@ == "quote"@ && r@[7].1@ == DatumV::Proc(ProcV::SpecialForm(SpecialOp::Quote)),
        r@[8].0@ == "set!"@ && r@[8].1@ == DatumV::Proc(ProcV::SpecialForm(SpecialOp::Assign)),
        r@[9].0@ == "syntax-rules"@ && r@[9].1@ == DatumV::Proc(ProcV::SpecialForm(SpecialOp::SyntaxRules)),
        r@[10].0@ == "+"@ && r@[10].1@ == DatumV::Proc(ProcV::Native(NativeOp::Add)),
        r@[11].0@ == "-"@ && r@[11].1@ == DatumV::Proc(ProcV::Native(NativeOp::Subtract)),
        r@[12].0@ == "*"@ && r@[12].1@ == DatumV::Proc(ProcV::Native(NativeOp::Multiply)),
        r@[13].0@ == "="@ && r@[13].1@ == DatumV::Proc(ProcV::Native(NativeOp::NumberEq)),
        r@[14].0@ == "append"@ && r@[14].1@ == DatumV::Proc(ProcV::Native(NativeOp::Append)),
        r@[15].0@ == "car"@ && r@[15].1@ == DatumV::Proc(ProcV::Native(NativeOp::Car)),
        r@[16].0@ == "cdr"@ && r@[16].1@ == DatumV::Proc(ProcV::Native(NativeOp::Cdr)),
        r@[17].0@ == "cons"@ && r@[17].1@ == DatumV::Proc(ProcV::Native(NativeOp::Cons)),
        r@[18].0@ == "eq?"@ && r@[18].1@ == DatumV::Proc(ProcV::Native(NativeOp::Eqv)),
        r@[19].0@ == "equal?"@ && r@[19].1@ == DatumV::Proc(ProcV::Native(NativeOp::Equal)),
        r@[20].0@ == "eqv?"@ && r@[20].1@ == DatumV::Proc(ProcV::Native(NativeOp::Eqv)),
        r@[21].0@ == "hash-ref"@ && r@[21].1@ == DatumV::Proc(ProcV::Native(NativeOp::HashRef)),
        r@[22].0@ == "hash-set!"@ && r@[22].1@ == DatumV::Proc(ProcV::Native(NativeOp::HashPut)),
        r@[23].0@ == "length"@ && r@[23].1@ == DatumV::Proc(ProcV::Native(NativeOp::Length)),
        r@[24].0@ == "list"@ && r@[24].1@ == DatumV::Proc(ProcV::Native(NativeOp::List)),
        r@[25].0@ == "list->string"@ && r@[25].1@ == DatumV::Proc(ProcV::Native(NativeOp::ListToString)),
        r@[26].0@ == "make-hash-table"@ && r@[26].1@ == DatumV::Proc(ProcV::Native(NativeOp::MakeHashTable)),
        r@[27].0@ == "null?"@ && r@[27].1@ == DatumV::Proc(ProcV::Native(NativeOp::NullP)),
        r@[28].0@ == "reverse"@ && r@[28].1@ == DatumV::Proc(ProcV::Native(NativeOp::Reverse)),
        r@[29].0@ == "string=?"@ && r@[29].1@ == DatumV::Proc(ProcV::Native(NativeOp::StringEqP)),
        r@[30].0@ == "string-append"@ && r@[30].1@ == DatumV::Proc(ProcV::Native(NativeOp::StringAppend)),
        r@[31].0@ == "string-contains"@ && r@[31].1@ == DatumV::Proc(ProcV::Native(NativeOp::StringContains)),
        r@[32].0@ == "string-length"@ && r@[32].1@ == DatumV::Proc(ProcV::Native(NativeOp::StringLength)),
        r@[33].0@ == "string-prefix?"@ && r@[33].1@ == DatumV::Proc(ProcV::Native(NativeOp::StringPrefixP)),
        r@[34].0@ == "string-split"@ && r@[34].1@ == DatumV::Proc(ProcV::Native(NativeOp::StringSplit)),
        r@[35].0@ == "string->list"@ && r@[35].1@ == DatumV::Proc(ProcV::Native(NativeOp::StringToList)),
        r@[36].0@ == "string->number"@ && r@[36].1@ == DatumV::Proc(ProcV::Native(NativeOp::StringToNumber)),
        r@[37].0@ == "string->symbol"@ && r@[37].1@ == DatumV::Proc(ProcV::Native(NativeOp::StringToSymbol)),
        r@[38].0@ == "substring"@ && r@[38].1@ == DatumV::Proc(ProcV::Native(NativeOp::Substring)),
        r@[39].0@ == "symbol->string"@ && r@[39].1@ == DatumV::Proc(ProcV::Native(NativeOp::SymbolToString)),
        r@[40].0@ == "boolean?"@ && r@[40].1@ == DatumV::Proc(ProcV::Native(NativeOp::BooleanP)),
        r@[41].0@ == "char?"@ && r@[41].1@ == DatumV::Proc(ProcV::Native(NativeOp::CharP)),
        r@[42].0@ == "number?"@ && r@[42].1@ == DatumV::Proc(ProcV::Native(NativeOp::NumberP)),
        r@[43].0@ == "pair?"@ && r@[43].1@ == DatumV::Proc(ProcV::Native(NativeOp::PairP)),
        r@[44].0@ == "procedure?"@ && r@[44].1@ == DatumV::Proc(ProcV::Native(NativeOp::ProcedureP)),
        r@[45].0@ == "string?"@ && r@[45].1@ == DatumV::Proc(ProcV::Native(NativeOp::StringP)),
        r@[46].0@ == "symbol?"@ && r@[46].1@ == DatumV::Proc(ProcV::Native(NativeOp::SymbolP)),
        r@[47].0@ == "vector?"@ && r@[47].1@ == DatumV::Proc(ProcV::Native(NativeOp::VectorP)),
        r@[7].0@ == crate::vm::quote_name(),
        forall|i: int| 0 <= i < 48 && i != 7 ==> (#[trigger] r@[i].0)@ != crate::vm::quote_name(),
{
    let r: Vec<(&'static str, Datum)> = vec![
        ("begin", crate::datum::special_datum(SpecialOp::Begin)),
        ("define", crate::datum::special_datum(SpecialOp::Define)),
        ("define-syntax", crate::datum::special_datum(SpecialOp::DefineSyntax)),
        ("eval", crate::datum::special_datum(SpecialOp::Eval)),
        ("if", crate::datum::special_datum(SpecialOp::If)),
        ("lambda", crate::datum::special_datum(SpecialOp::Lambda)),
        ("letrec", crate::datum::special_datum(SpecialOp::Letrec)),
        ("quote", crate::datum::special_datum(SpecialOp::Quote)),
        ("set!", crate::datum::special_datum(SpecialOp::Assign)),
        ("syntax-rules", crate::datum::special_datum(SpecialOp::SyntaxRules)),
        ("+", crate::datum::native_datum(NativeOp::Add)),
        ("-", crate::datum::native_datum(NativeOp::Subtract)),
        ("*", crate::datum::native_datum(NativeOp::Multiply)),
        ("=", crate::datum::native_datum(NativeOp::NumberEq)),
        ("append", crate::datum::native_datum(NativeOp::Append)),
        ("car", crate::datum::native_datum(NativeOp::Car)),
        ("cdr", crate::datum::native_datum(NativeOp::Cdr)),
        ("cons", crate::datum::native_datum(NativeOp::Cons)),
        ("eq?", crate::datum::native_datum(NativeOp::Eqv)),
        ("equal?", crate::datum::native_datum(NativeOp::Equal)),
        ("eqv?", crate::datum::native_datum(NativeOp::Eqv)),
        ("hash-ref", crate::datum::native_datum(NativeOp::HashRef)),
        ("hash-set!", crate::datum::native_datum(NativeOp::HashPut)),
        ("length", crate::datum::native_datum(NativeOp::Length)),
        ("list", crate::datum::native_datum(NativeOp::List)),
        ("list->string", crate::datum::native_datum(NativeOp::ListToString)),
        ("make-hash-table", crate::datum::native_datum(NativeOp::MakeHashTable)),
        ("null?", crate::datum::native_datum(NativeOp::NullP)),
        ("reverse", crate::datum::native_datum(NativeOp::Reverse)),
        ("string=?", crate::datum::native_datum(NativeOp::StringEqP)),
        ("string-append", crate::datum::native_datum(NativeOp::StringAppend)),
        ("string-contains", crate::datum::native_datum(NativeOp::StringContains)),
        ("string-length", crate::datum::native_datum(NativeOp::StringLength)),
        ("string-prefix?", crate::datum::native_datum(NativeOp::StringPrefixP)),
        ("string-split", crate::datum::native_datum(NativeOp::StringSplit)),
        ("string->list", crate::datum::native_datum(NativeOp::StringToList)),
        ("string->number", crate::datum::native_datum(NativeOp::StringToNumber)),
        ("string->symbol", crate::datum::native_datum(NativeOp::StringToSymbol)),
        ("substring", crate::datum::native_datum(NativeOp::Substring)),
        ("symbol->string", crate::datum::native_datum(NativeOp::SymbolToString)),
        ("boolean?", crate::datum::native_datum(NativeOp::BooleanP)),
        ("char?", crate::datum::native_datum(NativeOp::CharP)),
        ("number?", crate::datum::native_datum(NativeOp::NumberP)),
        ("pair?", crate::datum::native_datum(NativeOp::PairP)),
        ("procedure?", crate::datum::native_datum(NativeOp::ProcedureP)),
        ("string?", crate::datum::native_datum(NativeOp::StringP)),
        ("symbol?", crate::datum::native_datum(NativeOp::SymbolP)),
        ("vector?", crate::datum::native_datum(NativeOp::VectorP)),
    ];
    proof {
        reveal_strlit("begin");
        reveal_strlit("define");
        reveal_strlit("define-syntax");
        reveal_strlit("eval");
        reveal_strlit("if");
        reveal_strlit("lambda");
        reveal_strlit("letrec");
        reveal_strlit("quote");
        reveal_strlit("set!");
        reveal_strlit("syntax-rules");
        reveal_strlit("+");
        reveal_strlit("-");
        reveal_strlit("*");
        reveal_strlit("=");
        reveal_strlit("append");
        reveal_strlit("car");
        reveal_strlit("cdr");
        reveal_strlit("cons");
        reveal_strlit("eq?");
        reveal_strlit("equal?");
        reveal_strlit("eqv?");
        reveal_strlit("hash-ref");
        reveal_strlit("hash-set!");
        reveal_strlit("length");
        reveal_strlit("list");
        reveal_strlit("list->string");
        reveal_strlit("make-hash-table");
        reveal_strlit("null?");
        reveal_strlit("reverse");
        reveal_strlit("string=?");
        reveal_strlit("string-append");
        reveal_strlit("string-contains");
        reveal_strlit("string-length");
        reveal_strlit("string-prefix?");
        reveal_strlit("string-split");
        reveal_strlit("string->list");
        reveal_strlit("string->number");
        reveal_strlit("string->symbol");
        reveal_strlit("substring");
        reveal_strlit("symbol->string");
        reveal_strlit("boolean?");
        reveal_strlit("char?");
        reveal_strlit("number?");
        reveal_strlit("pair?");
        reveal_strlit("procedure?");
        reveal_strlit("string?");
        reveal_strlit("symbol?");
        reveal_strlit("vector?");
        assert(r@.len() == 48);
        assert(r@[7].0@ == crate::vm::quote_name());
        assert(r@[7].1@ == DatumV::Proc(ProcV::SpecialForm(SpecialOp::Quote)));
        assert forall|i: int| 0 <= i < 48 && i != 7 implies (#[trigger] r@[i].0)@
            != crate::vm::quote_name() by {
            assert(r@[i].0@.len() != 5 || r@[i].0@[0] != 'q' || r@[i].0@[1] != 'u' || r@[i].0@[2]
                != 'o' || r@[i].0@[3] != 't' || r@[i].0@[4] != 'e');
            assert(crate::vm::quote_name().len() == 5 && crate::vm::quote_name()[0] == 'q'
                && crate::vm::quote_name()[1] == 'u' && crate::vm::quote_name()[2] == 'o'
                && crate::vm::quote_name()[3] == 't' && crate::vm::quote_name()[4] == 'e');
        }
    }
    r
}

} // verus!
