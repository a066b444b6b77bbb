use crate::error::RuntimeError;
use std::rc::Rc;
use vstd::prelude::*;

verus! {

/// Identifier of a built-in procedure whose arguments are evaluated
/// before the call.
#[derive(Clone, Copy, PartialEq, Eq, Structural, Debug)]
pub enum NativeOp {
    Add,
    Subtract,
    Multiply,
    NumberEq,
    Append,
    Car,
    Cdr,
    Cons,
    Eqv,
    Equal,
    HashRef,
    HashPut,
    Length,
    List,
    ListToString,
    MakeHashTable,
    NullP,
    Reverse,
    StringEqP,
    StringAppend,
    StringContains,
    StringLength,
    StringPrefixP,
    StringSplit,
    StringToList,
    StringToNumber,
    StringToSymbol,
    Substring,
    SymbolToString,
    BooleanP,
    CharP,
    NumberP,
    PairP,
    ProcedureP,
    StringP,
    SymbolP,
    VectorP,
}

/// Identifier of a special form: it receives its operand forms unevaluated
/// and compiles them into instructions for the machine.
#[derive(Clone, Copy, PartialEq, Eq, Structural, Debug)]
pub enum SpecialOp {
    Begin,
    Define,
    DefineSyntax,
    Eval,
    If,
    Lambda,
    Letrec,
    Quote,
    Assign,
    SyntaxRules,
}

/// A user-defined procedure: ordered formal names, an optional rest name,
/// the body (a proper list of at least one form), and the index of the
/// captured environment frame.  The `id` gives the closure its identity
/// for `eqv?`.
#[derive(Debug)]
pub struct Closure {
    pub id: u64,
    pub formals: Vec<Rc<Vec<char>>>,
    pub rest: Option<Rc<Vec<char>>>,
    pub body: Rc<Datum>,
    pub env: usize,
}

/// One `syntax-rules` clause: the pattern (with the macro head already
/// stripped), the template, the symbols occurring in the template, and the
/// snapshot of template free variables bound at definition time.
#[derive(Debug)]
pub struct Rule {
    pub pattern: Datum,
    pub template: Datum,
    pub template_syms: Vec<Rc<Vec<char>>>,
    pub free: Vec<(Rc<Vec<char>>, Datum)>,
}

/// A compiled `syntax-rules` macro.  The `id` distinguishes macro values;
/// the clauses are tried in order at invocation time.
#[derive(Debug)]
pub struct Macro {
    pub id: u64,
    pub keywords: Vec<Rc<Vec<char>>>,
    pub rules: Vec<Rule>,
}

/// A procedure value: built-in, special form, or user-defined closure.
#[derive(Debug)]
pub enum Procedure {
    Native(NativeOp),
    SpecialForm(SpecialOp),
    Scheme(Rc<Closure>),
}

/// The universal value of the language.
///
/// Proper lists are right-nested pairs terminated by `EmptyList`.  A
/// `Vector` keeps its identity tag (for `eqv?`) next to the proper list of
/// its elements; an `Ext` value is a handle to a host object (here: a hash
/// table held by the interpreter).
#[derive(Debug)]
pub enum Datum {
    Boolean(bool),
    Number(i64),
    Character(char),
    Symbol(Rc<Vec<char>>),
    Str(Rc<Vec<char>>),
    EmptyList,
    Pair(Rc<Datum>, Rc<Datum>),
    Vector(u64, Rc<Datum>),
    Procedure(Procedure),
    SyntaxRule(Rc<Macro>),
    Ext(u64),
}

/// Relies on std's `Rc::clone`: the result is a new handle to the same
/// allocation, hence the same value.
#[verifier::external_body]
pub fn rc_clone<T>(r: &Rc<T>) -> (res: Rc<T>)
    ensures
        res == *r,
{
    Rc::clone(r)
}

/// Mathematical value of a [`Closure`].
pub struct ClosureV {
    pub id: nat,
    pub formals: Seq<Seq<char>>,
    pub rest: Option<Seq<char>>,
    pub body: Box<DatumV>,
    pub env: int,
}

/// Mathematical value of a [`Procedure`].
pub enum ProcV {
    Native(NativeOp),
    SpecialForm(SpecialOp),
    Scheme(ClosureV),
}

/// Mathematical value of a [`Datum`].  A `SyntaxRule` is abstracted to its
/// identity; the behaviour of a macro is specified at its expansion
/// functions, over the clauses it carries.
pub enum DatumV {
    Bool(bool),
    Num(int),
    Char(char),
    Sym(Seq<char>),
    Str(Seq<char>),
    Nil,
    Pair(Box<DatumV>, Box<DatumV>),
    Vector(nat, Box<DatumV>),
    Proc(ProcV),
    Syntax(nat),
    Ext(nat),
}

pub open spec fn opt_name_view(o: Option<Rc<Vec<char>>>) -> Option<Seq<char>> {
    match o {
        Some(v) => Some(v@),
        None => None,
    }
}

pub open spec fn names_view(v: Seq<Rc<Vec<char>>>) -> Seq<Seq<char>> {
    v.map_values(|x: Rc<Vec<char>>| x@)
}

pub open spec fn pv(p: Procedure) -> ProcV
    decreases p,
{
    match p {
        Procedure::Native(op) => ProcV::Native(op),
        Procedure::SpecialForm(op) => ProcV::SpecialForm(op),
        Procedure::Scheme(c) => ProcV::Scheme(
            ClosureV {
                id: c.id as nat,
                formals: names_view(c.formals@),
                rest: opt_name_view(c.rest),
                body: Box::new(dv(*c.body)),
                env: c.env as int,
            },
        ),
    }
}

pub open spec fn dv(d: Datum) -> DatumV
    decreases d,
{
    match d {
        Datum::Boolean(b) => DatumV::Bool(b),
        Datum::Number(n) => DatumV::Num(n as int),
        Datum::Character(c) => DatumV::Char(c),
        Datum::Symbol(s) => DatumV::Sym(s@),
        Datum::Str(s) => DatumV::Str(s@),
        Datum::EmptyList => DatumV::Nil,
        Datum::Pair(a, b) => DatumV::Pair(Box::new(dv(*a)), Box::new(dv(*b))),
        Datum::Vector(id, elems) => DatumV::Vector(id as nat, Box::new(dv(*elems))),
        Datum::Procedure(p) => DatumV::Proc(pv(p)),
        Datum::SyntaxRule(m) => DatumV::Syntax(m.id as nat),
        Datum::Ext(id) => DatumV::Ext(id as nat),
    }
}

impl View for Datum {
    type V = DatumV;

    open spec fn view(&self) -> DatumV {
        dv(*self)
    }
}

/// A datum is self-evaluating when it is neither a symbol nor a pair.
pub open spec fn self_evaluating(v: DatumV) -> bool {
    !(v matches DatumV::Sym(_)) && !(v matches DatumV::Pair(_, _))
}

/// A proper list: `Nil`, or a pair whose tail is a proper list.
pub open spec fn is_proper(v: DatumV) -> bool
    decreases v,
{
    match v {
        DatumV::Nil => true,
        DatumV::Pair(_, t) => is_proper(*t),
        _ => false,
    }
}

/// The elements reached by walking tails: the cars of each pair, and, for
/// an improper list, the terminating atom as the final element.
pub open spec fn flat_elems(v: DatumV) -> Seq<DatumV>
    decreases v,
{
    match v {
        DatumV::Nil => Seq::empty(),
        DatumV::Pair(h, t) => seq![*h] + flat_elems(*t),
        _ => seq![v],
    }
}

/// The proper list holding exactly the given elements, in order.
pub open spec fn list_of(s: Seq<DatumV>) -> DatumV
    decreases s.len(),
{
    if s.len() == 0 {
        DatumV::Nil
    } else {
        DatumV::Pair(Box::new(s[0]), Box::new(list_of(s.drop_first())))
    }
}

/// The improper list whose final tail is the last element; for a single
/// element it is that element itself.
pub open spec fn improper_of(s: Seq<DatumV>) -> DatumV
    decreases s.len(),
{
    if s.len() == 0 {
        DatumV::Nil
    } else if s.len() == 1 {
        s[0]
    } else {
        DatumV::Pair(Box::new(s[0]), Box::new(improper_of(s.drop_first())))
    }
}

/// Views of a sequence of datums.
pub open spec fn dviews(s: Seq<Datum>) -> Seq<DatumV> {
    s.map_values(|d: Datum| dv(d))
}

/// The characters of a string slice, in order.
pub fn str_chars(s: &str) -> (r: Vec<char>)
    ensures
        r@ == s@,
{
    let mut r: Vec<char> = Vec::new();
    for c in it: s.chars()
        invariant
            r@ =~= it.seq().subrange(0, it.index() as int),
            it.seq() == s@,
    {
        r.push(c);
    }
    proof {
        assert(s@.subrange(0, s@.len() as int) =~= s@);
    }
    r
}

/// The name of a symbol datum.
pub fn symbol_name(d: &Datum) -> (r: Option<Rc<Vec<char>>>)
    ensures
        match r {
            Some(s) => d@ matches DatumV::Sym(n) && s@ == n,
            None => !(d@ is Sym),
        },
{
    match d {
        Datum::Symbol(s) => Some(rc_clone(s)),
        Datum::Boolean(_) | Datum::Number(_) | Datum::Character(_) | Datum::Str(_)
            | Datum::EmptyList | Datum::Pair(_, _) | Datum::Vector(_, _) | Datum::Procedure(_)
            | Datum::SyntaxRule(_) | Datum::Ext(_) => None,
    }
}

/// Builds a closure procedure value.
pub fn make_scheme(
    id: u64,
    formals: Vec<Rc<Vec<char>>>,
    rest: Option<Rc<Vec<char>>>,
    body: Datum,
    env: usize,
) -> (r: Datum)
    ensures
        r@ == DatumV::Proc(
            ProcV::Scheme(
                ClosureV {
                    id: id as nat,
                    formals: names_view(formals@),
                    rest: opt_name_view(rest),
                    body: Box::new(body@),
                    env: env as int,
                },
            ),
        ),
{
    let ghost fv = names_view(formals@);
    let ghost rv = opt_name_view(rest);
    let ghost bv = dv(body);
    let c = Closure { id, formals, rest, body: Rc::new(body), env };
    proof {
        assert(names_view(c.formals@) == fv);
        assert(opt_name_view(c.rest) == rv);
        assert(dv(*c.body) == bv);
    }
    let rcc = Rc::new(c);
    proof {
        assert(pv(Procedure::Scheme(rcc)) == ProcV::Scheme(
            ClosureV {
                id: id as nat,
                formals: fv,
                rest: rv,
                body: Box::new(bv),
                env: env as int,
            },
        ));
    }
    let p = Procedure::Scheme(rcc);
    let r = Datum::Procedure(p);
    proof {
        assert(dv(r) == DatumV::Proc(
            ProcV::Scheme(
                ClosureV {
                    id: id as nat,
                    formals: fv,
                    rest: rv,
                    body: Box::new(bv),
                    env: env as int,
                },
            ),
        ));
    }
    r
}

/// A special-form procedure value.
pub fn special_datum(op: SpecialOp) -> (r: Datum)
    ensures
        r@ == DatumV::Proc(ProcV::SpecialForm(op)),
{
    let p = Procedure::SpecialForm(op);
    proof {
        assert(pv(p) == ProcV::SpecialForm(op));
    }
    let r = Datum::Procedure(p);
    proof {
        assert(dv(r) == DatumV::Proc(pv(Procedure::SpecialForm(op))));
    }
    r
}

/// A native procedure value.
pub fn native_datum(op: NativeOp) -> (r: Datum)
    ensures
        r@ == DatumV::Proc(ProcV::Native(op)),
{
    let p = Procedure::Native(op);
    proof {
        assert(pv(p) == ProcV::Native(op));
    }
    let r = Datum::Procedure(p);
    proof {
        assert(dv(r) == DatumV::Proc(pv(Procedure::Native(op))));
    }
    r
}

/// Unfolding of the view on a character datum.
pub proof fn lemma_dv_char(c: char)
    ensures
        dv(Datum::Character(c)) == DatumV::Char(c),
{
}

/// `eqv?` on procedures: built-ins are the same operation, closures are the
/// same object.
pub open spec fn proc_eqv(a: ProcV, b: ProcV) -> bool {
    match (a, b) {
        (ProcV::Native(x), ProcV::Native(y)) => x == y,
        (ProcV::SpecialForm(x), ProcV::SpecialForm(y)) => x == y,
        (ProcV::Scheme(x), ProcV::Scheme(y)) => x.id == y.id,
        _ => false,
    }
}

/// `eqv?`: content equality for booleans, symbols, numbers, characters and
/// the empty list; identity for vectors, procedures and host objects;
/// always false for pairs, strings and syntax rules (they are never the
/// same object here).
pub open spec fn eqv_spec(a: DatumV, b: DatumV) -> bool {
    match (a, b) {
        (DatumV::Bool(x), DatumV::Bool(y)) => x == y,
        (DatumV::Sym(x), DatumV::Sym(y)) => x == y,
        (DatumV::Num(x), DatumV::Num(y)) => x == y,
        (DatumV::Char(x), DatumV::Char(y)) => x == y,
        (DatumV::Nil, DatumV::Nil) => true,
        (DatumV::Proc(x), DatumV::Proc(y)) => proc_eqv(x, y),
        (DatumV::Vector(i, _), DatumV::Vector(j, _)) => i == j,
        (DatumV::Ext(i), DatumV::Ext(j)) => i == j,
        _ => false,
    }
}

/// `equal?`: like `eqv?` on atoms, except strings compare by content,
/// and pairs and vectors compare by structural recursion.
pub open spec fn equal_spec(a: DatumV, b: DatumV) -> bool
    decreases a,
{
    match (a, b) {
        (DatumV::Bool(x), DatumV::Bool(y)) => x == y,
        (DatumV::Sym(x), DatumV::Sym(y)) => x == y,
        (DatumV::Num(x), DatumV::Num(y)) => x == y,
        (DatumV::Char(x), DatumV::Char(y)) => x == y,
        (DatumV::Ext(x), DatumV::Ext(y)) => x == y,
        (DatumV::Nil, DatumV::Nil) => true,
        (DatumV::Proc(x), DatumV::Proc(y)) => proc_eqv(x, y),
        (DatumV::Pair(a1, d1), DatumV::Pair(a2, d2)) => equal_spec(*a1, *a2) && equal_spec(
            *d1,
            *d2,
        ),
        (DatumV::Vector(_, x), DatumV::Vector(_, y)) => equal_spec(*x, *y),
        (DatumV::Str(x), DatumV::Str(y)) => x == y,
        _ => false,
    }
}

/// Structural `equal?` on two datums.
pub fn datum_equal(a: &Datum, b: &Datum) -> (r: bool)
    ensures
        r == equal_spec(a@, b@),
    decreases *a,
{
    match (a, b) {
        (Datum::Boolean(x), Datum::Boolean(y)) => *x == *y,
        (Datum::Symbol(x), Datum::Symbol(y)) => crate::environment::names_eq(x, y),
        (Datum::Number(x), Datum::Number(y)) => *x == *y,
        (Datum::Character(x), Datum::Character(y)) => *x == *y,
        (Datum::Ext(x), Datum::Ext(y)) => *x == *y,
        (Datum::EmptyList, Datum::EmptyList) => true,
        (Datum::Procedure(x), Datum::Procedure(y)) => procedure_eqv(x, y),
        (Datum::Pair(a1, d1), Datum::Pair(a2, d2)) => datum_equal(&**a1, &**a2) && datum_equal(
            &**d1,
            &**d2,
        ),
        (Datum::Vector(_, x), Datum::Vector(_, y)) => datum_equal(&**x, &**y),
        (Datum::Str(x), Datum::Str(y)) => crate::environment::names_eq(x, y),
        _ => false,
    }
}

/// Identity `eqv?` on two procedures.
pub fn procedure_eqv(a: &Procedure, b: &Procedure) -> (r: bool)
    ensures
        r == proc_eqv(pv(*a), pv(*b)),
{
    match (a, b) {
        (Procedure::Native(x), Procedure::Native(y)) => *x == *y,
        (Procedure::SpecialForm(x), Procedure::SpecialForm(y)) => *x == *y,
        (Procedure::Scheme(x), Procedure::Scheme(y)) => x.id == y.id,
        _ => false,
    }
}

/// Identity `eqv?` on two datums.
pub fn datum_eqv(a: &Datum, b: &Datum) -> (r: bool)
    ensures
        r == eqv_spec(a@, b@),
{
    match (a, b) {
        (Datum::Boolean(x), Datum::Boolean(y)) => *x == *y,
        (Datum::Symbol(x), Datum::Symbol(y)) => crate::environment::names_eq(x, y),
        (Datum::Number(x), Datum::Number(y)) => *x == *y,
        (Datum::Character(x), Datum::Character(y)) => *x == *y,
        (Datum::EmptyList, Datum::EmptyList) => true,
        (Datum::Procedure(x), Datum::Procedure(y)) => procedure_eqv(x, y),
        (Datum::Vector(i, _), Datum::Vector(j, _)) => *i == *j,
        (Datum::Ext(i), Datum::Ext(j)) => *i == *j,
        _ => false,
    }
}

impl Clone for Datum {
    /// Cloning shares interior nodes and preserves the value exactly.
    fn clone(&self) -> (res: Self)
        ensures
            res == *self,
    {
        match self {
            Datum::Boolean(b) => Datum::Boolean(*b),
            Datum::Number(n) => Datum::Number(*n),
            Datum::Character(c) => Datum::Character(*c),
            Datum::Symbol(s) => Datum::Symbol(rc_clone(s)),
            Datum::Str(s) => Datum::Str(rc_clone(s)),
            Datum::EmptyList => Datum::EmptyList,
            Datum::Pair(a, b) => Datum::Pair(rc_clone(a), rc_clone(b)),
            Datum::Vector(id, elems) => Datum::Vector(*id, rc_clone(elems)),
            Datum::Procedure(p) => Datum::Procedure(p.clone()),
            Datum::SyntaxRule(m) => Datum::SyntaxRule(rc_clone(m)),
            Datum::Ext(id) => Datum::Ext(*id),
        }
    }
}

impl Clone for Procedure {
    /// Cloning shares the underlying closure and preserves the value.
    fn clone(&self) -> (res: Self)
        ensures
            res == *self,
    {
        match self {
            Procedure::Native(op) => Procedure::Native(*op),
            Procedure::SpecialForm(op) => Procedure::SpecialForm(*op),
            Procedure::Scheme(c) => Procedure::Scheme(rc_clone(c)),
        }
    }
}

impl Datum {
    /// Builds a pair from its two fields.
    pub fn pair(car: Datum, cdr: Datum) -> (r: Datum)
        ensures
            r@ == DatumV::Pair(Box::new(car@), Box::new(cdr@)),
    {
        Datum::Pair(Rc::new(car), Rc::new(cdr))
    }

    /// Builds the proper list of the given elements.
    pub fn list(elems: Vec<Datum>) -> (r: Datum)
        ensures
            r@ == list_of(dviews(elems@)),
    {
        let mut elems = elems;
        let mut out = Datum::EmptyList;
        let ghost all = dviews(elems@);
        proof {
            assert(all.subrange(elems@.len() as int, all.len() as int) =~= Seq::empty());
        }
        while elems.len() > 0
            invariant
                elems@.len() <= all.len(),
                dviews(elems@) =~= all.subrange(0, elems@.len() as int),
                out@ == list_of(all.subrange(elems@.len() as int, all.len() as int)),
            decreases elems.len(),
        {
            let ghost n = elems@.len() as int;
            let ghost prev = elems@;
            let e = elems.pop().unwrap();
            proof {
                assert(e == prev[n - 1]);
                assert(dviews(prev)[n - 1] == dv(prev[n - 1]));
                assert(dviews(prev) =~= all.subrange(0, n));
                assert(all.subrange(0, n)[n - 1] == all[n - 1]);
                assert(all[n - 1] == e@);
                assert(elems@ == prev.drop_last());
                assert(dviews(elems@) =~= all.subrange(0, n - 1));
            }
            out = Datum::Pair(Rc::new(e), Rc::new(out));
            proof {
                let tail = all.subrange(n - 1, all.len() as int);
                assert(tail[0] == all[n - 1]);
                assert(tail.drop_first() =~= all.subrange(n, all.len() as int));
            }
        }
        proof {
            assert(all.subrange(0, all.len() as int) =~= all);
        }
        out
    }

    /// Builds the improper list of the given elements; the last element
    /// becomes the final tail.
    pub fn improper_list(elems: Vec<Datum>) -> (r: Datum)
        requires
            elems@.len() >= 1,
        ensures
            r@ == improper_of(dviews(elems@)),
    {
        let mut elems = elems;
        let ghost all = dviews(elems@);
        let mut out = elems.pop().unwrap();
        proof {
            assert(dviews(elems@) =~= all.drop_last());
            assert(all.subrange(all.len() - 1, all.len() as int)[0] == all.last());
            assert(out@ == improper_of(all.subrange(all.len() - 1, all.len() as int)));
        }
        while elems.len() > 0
            invariant
                all.len() >= 1,
                elems@.len() < all.len(),
                dviews(elems@) =~= all.subrange(0, elems@.len() as int),
                out@ == improper_of(all.subrange(elems@.len() as int, all.len() as int)),
            decreases elems.len(),
        {
            let ghost n = elems@.len() as int;
            let ghost prev = elems@;
            let e = elems.pop().unwrap();
            proof {
                assert(e == prev[n - 1]);
                assert(dviews(prev)[n - 1] == dv(prev[n - 1]));
                assert(dviews(prev) =~= all.subrange(0, n));
                assert(all.subrange(0, n)[n - 1] == all[n - 1]);
                assert(all[n - 1] == e@);
                assert(elems@ == prev.drop_last());
                assert(dviews(elems@) =~= all.subrange(0, n - 1));
            }
            out = Datum::Pair(Rc::new(e), Rc::new(out));
            proof {
                let tail = all.subrange(n - 1, all.len() as int);
                assert(tail[0] == all[n - 1]);
                assert(tail.drop_first() =~= all.subrange(n, all.len() as int));
            }
        }
        proof {
            assert(all.subrange(0, all.len() as int) =~= all);
        }
        out
    }

    /// Walks the tails of this datum, returning the flat elements and
    /// whether the walk ended in the empty list (a proper list).
    pub fn as_vec(&self) -> (r: (Vec<Datum>, bool))
        ensures
            dviews(r.0@) =~= flat_elems(self@),
            r.1 == is_proper(self@),
    {
        let mut out: Vec<Datum> = Vec::new();
        let mut cur: &Datum = self;
        loop
            invariant
                dviews(out@) + flat_elems(cur@) =~= flat_elems(self@),
                is_proper(cur@) == is_proper(self@),
            decreases *cur,
        {
            match cur {
                Datum::Pair(a, b) => {
                    let ghost before = dviews(out@);
                    out.push((**a).clone());
                    proof {
                        assert(dviews(out@) =~= before + seq![dv(**a)]);
                    }
                    cur = &**b;
                },
                Datum::EmptyList => {
                    return (out, true);
                },
                _ => {
                    let ghost before = dviews(out@);
                    out.push(cur.clone());
                    proof {
                        assert(dviews(out@) =~= before + seq![dv(*cur)]);
                    }
                    return (out, false);
                },
            }
        }
    }

    /// The elements of a proper list, or a type error when the walk does
    /// not end in the empty list.
    pub fn to_vec(&self) -> (r: Result<Vec<Datum>, RuntimeError>)
        ensures
            match r {
                Ok(v) => is_proper(self@) && dviews(v@) =~= flat_elems(self@),
                Err(e) => !is_proper(self@) && e == RuntimeError::Type,
            },
    {
        let (elems, proper) = self.as_vec();
        if proper {
            Ok(elems)
        } else {
            Err(RuntimeError::Type)
        }
    }

    /// The proper list of this datum's flat elements in reverse order.
    pub fn reverse(&self) -> (r: Datum)
        ensures
            r@ == list_of(flat_elems(self@).reverse()),
    {
        let (elems, _) = self.as_vec();
        let ghost all = flat_elems(self@);
        let mut out = Datum::EmptyList;
        let mut i: usize = 0;
        proof {
            assert(all.reverse().subrange(all.len() as int, all.len() as int) =~= Seq::empty());
        }
        while i < elems.len()
            invariant
                i <= elems@.len(),
                dviews(elems@) =~= all,
                out@ == list_of(all.reverse().subrange(all.len() - i, all.len() as int)),
            decreases elems.len() - i,
        {
            let e = elems[i].clone();
            out = Datum::Pair(Rc::new(e), Rc::new(out));
            proof {
                let r = all.reverse();
                let n = all.len() as int;
                let tail = r.subrange(n - i - 1, n);
                assert(tail[0] == r[n - i - 1]);
                assert(r[n - i - 1] == all[i as int]);
                assert(tail.drop_first() =~= r.subrange(n - i, n));
                assert(e@ == all[i as int]);
            }
            i = i + 1;
        }
        proof {
            assert(all.reverse().subrange(0, all.len() as int) =~= all.reverse());
        }
        out
    }
}

} // verus!
