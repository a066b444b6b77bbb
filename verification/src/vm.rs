use crate::builtin::{native_apply, special_apply};
use crate::datum::{
    dv, dviews, flat_elems, is_proper, list_of, pv, self_evaluating, Datum, DatumV, Procedure,
    ProcV, SpecialOp,
};
use crate::environment::{copy_name, EnvArena};
use crate::error::RuntimeError;
use std::rc::Rc;
use vstd::prelude::*;

verus! {

/// How a `Define` instruction binds: a fresh binding in the current frame,
/// a mutation of the nearest existing binding, or a macro binding.
#[derive(Clone, Copy, PartialEq, Eq, Structural, Debug)]
pub enum DefineKind {
    Define,
    Assign,
    DefineSyntax,
}

/// An executor-level directive.  The machine pops one instruction at a
/// time from the instruction stack; `Invoke`, `Apply` and `Frame` are the
/// engine-internal steps of procedure application.
#[derive(Debug)]
pub enum Instruction {
    /// Push a literal onto the value stack.
    PushValue(Datum),
    /// Discard the top of the value stack.
    PopValue,
    /// Pop a datum and evaluate it in the given frame; the flag marks tail
    /// position.
    Evaluate(usize, bool),
    /// Pop a value; when it is `#f`, skip the next `k` instructions.
    JumpIfFalse(usize),
    /// Unwind the instruction stack through the nearest `Frame` marker.
    Return,
    /// Pop a value and bind it to the name in the given frame.
    Define(usize, Rc<Vec<char>>, DefineKind),
    /// Pop the evaluated head of the original form and dispatch on it.
    Invoke(usize, Datum, bool),
    /// Pop the argument count and the procedure beneath, and call it.
    Apply(usize, bool),
    /// Frame marker: a no-op boundary for `Return`.
    Frame,
}

/// Mathematical value of an [`Instruction`].
pub enum InstructionV {
    PushValue(DatumV),
    PopValue,
    Evaluate(int, bool),
    JumpIfFalse(int),
    Return,
    Define(int, Seq<char>, DefineKind),
    Invoke(int, DatumV, bool),
    Apply(int, bool),
    Frame,
}

pub open spec fn iv(i: Instruction) -> InstructionV {
    match i {
        Instruction::PushValue(d) => InstructionV::PushValue(dv(d)),
        Instruction::PopValue => InstructionV::PopValue,
        Instruction::Evaluate(e, t) => InstructionV::Evaluate(e as int, t),
        Instruction::JumpIfFalse(k) => InstructionV::JumpIfFalse(k as int),
        Instruction::Return => InstructionV::Return,
        Instruction::Define(e, n, k) => InstructionV::Define(e as int, n@, k),
        Instruction::Invoke(e, d, t) => InstructionV::Invoke(e as int, dv(d), t),
        Instruction::Apply(n, t) => InstructionV::Apply(n as int, t),
        Instruction::Frame => InstructionV::Frame,
    }
}

impl View for Instruction {
    type V = InstructionV;

    open spec fn view(&self) -> InstructionV {
        iv(*self)
    }
}

/// Views of an instruction sequence.
pub open spec fn iviews(s: Seq<Instruction>) -> Seq<InstructionV> {
    s.map_values(|i: Instruction| iv(i))
}

/// The mutable world of the evaluator: the environment arena, the store of
/// hash tables (addressed by `Ext` handles), and a counter for fresh
/// closure, macro and vector identities.
pub struct Machine {
    pub envs: EnvArena,
    pub tables: Vec<Vec<(Datum, Datum)>>,
    pub next_id: u64,
}

impl Machine {
    pub open spec fn wf(self) -> bool {
        self.envs.wf()
    }

    /// A machine with only the empty global frame.
    pub fn new() -> (r: Self)
        ensures
            r.wf(),
            r.envs.frame_count() == 1,
            r.envs.parent_of(0) is None,
            r.envs.frame_dom(0) =~= Set::<Seq<char>>::empty(),
            r.tables@.len() == 0,
    {
        Machine { envs: EnvArena::new(), tables: Vec::new(), next_id: 0 }
    }

    /// A fresh identity for a closure, macro or vector.
    pub fn fresh_id(&mut self) -> (r: u64)
        ensures
            r == old(self).next_id,
            final(self).envs == old(self).envs,
            final(self).tables == old(self).tables,
    {
        let id = self.next_id;
        self.next_id = if self.next_id < 0xffff_ffff_ffff_ffffu64 {
            self.next_id + 1
        } else {
            self.next_id
        };
        id
    }
}

/// The association of a hash table: the value of the first key that is
/// `equal?` to the one sought.
pub open spec fn tbl_find(s: Seq<(DatumV, DatumV)>, k: DatumV) -> Option<DatumV>
    decreases s.len(),
{
    if s.len() == 0 {
        None
    } else if crate::datum::equal_spec(s[0].0, k) {
        Some(s[0].1)
    } else {
        tbl_find(s.drop_first(), k)
    }
}

/// The table after storing a value: the first `equal?` entry is replaced,
/// or a new entry is appended.
pub open spec fn tbl_put(s: Seq<(DatumV, DatumV)>, k: DatumV, v: DatumV) -> Seq<(DatumV, DatumV)>
    decreases s.len(),
{
    if s.len() == 0 {
        seq![(k, v)]
    } else if crate::datum::equal_spec(s[0].0, k) {
        seq![(s[0].0, v)] + s.drop_first()
    } else {
        seq![s[0]] + tbl_put(s.drop_first(), k, v)
    }
}

/// Storing a key and looking the same key up yields the stored value:
/// `hash-set!` followed by `hash-ref` returns what was stored.  The key
/// must be `equal?` to itself, which holds of every datum that does not
/// contain a syntax-rules value (macros are never `equal?`, even to
/// themselves).
pub proof fn lemma_tbl_put_find(s: Seq<(DatumV, DatumV)>, k: DatumV, v: DatumV)
    requires
        crate::datum::equal_spec(k, k),
    ensures
        tbl_find(tbl_put(s, k, v), k) == Some(v),
    decreases s.len(),
{
    if s.len() == 0 {
        assert(tbl_put(s, k, v) =~= seq![(k, v)]);
        assert(tbl_put(s, k, v).drop_first() =~= Seq::<(DatumV, DatumV)>::empty());
    } else if crate::datum::equal_spec(s[0].0, k) {
        assert(tbl_put(s, k, v)[0] == (s[0].0, v));
    } else {
        lemma_tbl_put_find(s.drop_first(), k, v);
        assert(tbl_put(s, k, v)[0] == s[0]);
        assert(tbl_put(s, k, v).drop_first() =~= tbl_put(s.drop_first(), k, v));
    }
}

/// Views of a table's entries.
pub open spec fn tviews(s: Seq<(Datum, Datum)>) -> Seq<(DatumV, DatumV)> {
    s.map_values(|p: (Datum, Datum)| (dv(p.0), dv(p.1)))
}

/// The instructions that evaluate a body: each form in order, intermediate
/// results dropped, the last form in tail position.
pub open spec fn body_instrs(forms: Seq<DatumV>, env: int) -> Seq<InstructionV>
    decreases forms.len(),
{
    if forms.len() == 0 {
        Seq::empty()
    } else if forms.len() == 1 {
        seq![InstructionV::PushValue(forms[0]), InstructionV::Evaluate(env, true)]
    } else {
        seq![
            InstructionV::PushValue(forms[0]),
            InstructionV::Evaluate(env, false),
            InstructionV::PopValue,
        ] + body_instrs(forms.drop_first(), env)
    }
}

/// Emits the body instructions for the forms from `idx` on.
pub fn emit_body(forms: &Vec<Datum>, idx: usize, env: usize, out: &mut Vec<Instruction>)
    requires
        idx <= forms@.len(),
    ensures
        iviews(final(out)@) == iviews(old(out)@) + body_instrs(
            dviews(forms@).skip(idx as int),
            env as int,
        ),
    decreases forms@.len() - idx,
{
    let ghost pre = out@;
    if idx >= forms.len() {
        proof {
            assert(dviews(forms@).skip(idx as int) =~= Seq::<DatumV>::empty());
            assert(iviews(out@) =~= iviews(pre) + body_instrs(
                dviews(forms@).skip(idx as int),
                env as int,
            ));
        }
        return ;
    }
    let last = idx == forms.len() - 1;
    out.push(Instruction::PushValue(forms[idx].clone()));
    out.push(Instruction::Evaluate(env, last));
    if last {
        proof {
            let fs = dviews(forms@).skip(idx as int);
            assert(fs.len() == 1);
            assert(fs[0] == dviews(forms@)[idx as int]);
            assert(dviews(forms@)[idx as int] == dv(forms@[idx as int]));
            assert(iviews(out@) =~= iviews(pre) + body_instrs(fs, env as int));
        }
    } else {
        out.push(Instruction::PopValue);
        let ghost mid = out@;
        emit_body(forms, idx + 1, env, out);
        proof {
            let fs = dviews(forms@).skip(idx as int);
            assert(fs.len() >= 2);
            assert(fs[0] == dv(forms@[idx as int]));
            assert(fs.drop_first() =~= dviews(forms@).skip(idx + 1));
            assert(iviews(mid) =~= iviews(pre) + seq![
                InstructionV::PushValue(fs[0]),
                InstructionV::Evaluate(env as int, false),
                InstructionV::PopValue,
            ]);
            assert(iviews(out@) =~= iviews(pre) + body_instrs(fs, env as int));
        }
    }
}

/// Pushes the instructions onto the stack so that the first executes next.
pub fn splice(istack: &mut Vec<Instruction>, instrs: Vec<Instruction>)
    ensures
        iviews(final(istack)@) == iviews(old(istack)@) + iviews(instrs@).reverse(),
{
    let mut instrs = instrs;
    let ghost all = iviews(instrs@);
    proof {
        assert(all.reverse().subrange(0, 0) =~= Seq::<InstructionV>::empty());
        assert(iviews(istack@) =~= iviews(istack@) + all.reverse().subrange(0, 0));
    }
    while instrs.len() > 0
        invariant
            instrs@.len() <= all.len(),
            iviews(instrs@) =~= all.subrange(0, instrs@.len() as int),
            iviews(istack@) =~= iviews(old(istack)@) + all.reverse().subrange(
                0,
                all.len() - instrs@.len(),
            ),
        decreases instrs@.len(),
    {
        let ghost n = instrs@.len() as int;
        let ghost prev = instrs@;
        let i = instrs.pop().unwrap();
        let ghost spre = istack@;
        istack.push(i);
        proof {
            assert(i == prev[n - 1]);
            assert(iviews(prev)[n - 1] == iv(prev[n - 1]));
            assert(iviews(prev) =~= all.subrange(0, n));
            assert(iv(i) == all[n - 1]);
            assert(instrs@ == prev.drop_last());
            assert(iviews(instrs@) =~= all.subrange(0, n - 1));
            assert(iviews(istack@) =~= iviews(spre).push(iv(i)));
            assert(all.reverse()[all.len() - n] == all[n - 1]);
            assert(all.reverse().subrange(0, all.len() - n + 1) =~= all.reverse().subrange(
                0,
                all.len() - n,
            ).push(all.reverse()[all.len() - n]));
            assert(iviews(istack@) =~= iviews(old(istack)@) + all.reverse().subrange(
                0,
                all.len() - (n - 1),
            ));
        }
    }
    proof {
        assert(all.reverse().subrange(0, all.len() as int) =~= all.reverse());
    }
}

/// Whether a datum is self-evaluating (neither a symbol nor a pair).
pub fn is_self_evaluating(d: &Datum) -> (r: bool)
    ensures
        r == self_evaluating(d@),
{
    match d {
        Datum::Symbol(_) => false,
        Datum::Pair(_, _) => false,
        Datum::Boolean(_) | Datum::Number(_) | Datum::Character(_) | Datum::Str(_)
            | Datum::EmptyList | Datum::Vector(_, _) | Datum::Procedure(_)
            | Datum::SyntaxRule(_) | Datum::Ext(_) => true,
    }
}

/// The instructions that evaluate an application form: evaluate the head,
/// then dispatch on the resulting procedure; a non-tail application is
/// bracketed by a frame marker.
pub open spec fn eval_pair_instrs(env: int, form: DatumV, tail: bool) -> Seq<InstructionV> {
    (if !tail {
        seq![InstructionV::Frame]
    } else {
        Seq::empty()
    }) + seq![
        InstructionV::Invoke(env, form, tail),
        InstructionV::Evaluate(env, false),
        InstructionV::PushValue(flat_elems(form)[0]),
    ]
}

/// The instructions that evaluate already-scheduled operands: under the
/// `Apply` sit `Evaluate`/`PushValue` pairs, the first operand topmost.
pub open spec fn args_sched(argvs: Seq<DatumV>, e: int) -> Seq<InstructionV>
    decreases argvs.len(),
{
    if argvs.len() == 0 {
        Seq::empty()
    } else {
        seq![InstructionV::Evaluate(e, false), InstructionV::PushValue(argvs.last())]
            + args_sched(argvs.drop_last(), e)
    }
}

/// The instruction stack after a `Return`: everything up to and including
/// the nearest frame marker is discarded; without one the stack empties.
pub open spec fn unwound(s: Seq<InstructionV>) -> Seq<InstructionV>
    decreases s.len(),
{
    if s.len() == 0 {
        Seq::empty()
    } else if s.last() is Frame {
        s.drop_last()
    } else {
        unwound(s.drop_last())
    }
}

/// Executes one instruction.  The clauses below pin the machine's behaviour
/// on the steps that literal and quoted forms take: pushing a literal,
/// evaluating a self-evaluating datum, a symbol or an application form,
/// invoking the `quote` special form, and passing a frame marker.
#[verifier::rlimit(100)]
#[verifier::loop_isolation(false)]
pub fn step(mach: &mut Machine, istack: &mut Vec<Instruction>, vstack: &mut Vec<Datum>) -> (r:
    Result<(), RuntimeError>)
    requires
        old(mach).wf(),
        old(istack)@.len() > 0,
    ensures
        final(mach).wf(),
        final(mach).envs.frame_count() >= old(mach).envs.frame_count(),
        ({
            let top = iv(old(istack)@.last());
            let rest = old(istack)@.drop_last();
            &&& (top matches InstructionV::PushValue(d) ==> r is Ok && *final(mach) == *old(mach)
                && iviews(final(istack)@) == iviews(rest) && dviews(final(vstack)@) == dviews(
                old(vstack)@,
            ).push(d))
            &&& (top matches InstructionV::Frame ==> r is Ok && *final(mach) == *old(mach)
                && iviews(final(istack)@) == iviews(rest) && final(vstack)@ == old(vstack)@)
            &&& (top matches InstructionV::Evaluate(e, tail) ==> old(vstack)@.len() > 0 ==> {
                let v = old(vstack)@.last()@;
                &&& (self_evaluating(v) ==> r is Ok && *final(mach) == *old(mach) && iviews(
                    final(istack)@,
                ) == iviews(rest) && dviews(final(vstack)@) == dviews(old(vstack)@))
                &&& (v matches DatumV::Sym(s) ==> 0 <= e < old(mach).envs.frame_count()
                    ==> *final(mach) == *old(mach) && (match old(mach).envs.lookup(e, s) {
                    Some(val) => r is Ok && iviews(final(istack)@) == iviews(rest) && dviews(
                        final(vstack)@,
                    ) == dviews(old(vstack)@).drop_last().push(val),
                    None => r matches Err(err) && (err matches RuntimeError::Unbound(u) && u@
                        == s),
                }))
                &&& (v is Pair && is_proper(v) && 0 <= e < old(mach).envs.frame_count() ==> r
                    is Ok && *final(mach) == *old(mach) && iviews(final(istack)@) == iviews(rest)
                    + eval_pair_instrs(e, v, tail) && dviews(final(vstack)@) == dviews(
                    old(vstack)@,
                ).drop_last())
            })
            &&& (top matches InstructionV::JumpIfFalse(k) ==> old(vstack)@.len() > 0 ==> {
                let v = old(vstack)@.last()@;
                &&& *final(mach) == *old(mach)
                &&& dviews(final(vstack)@) == dviews(old(vstack)@).drop_last()
                &&& (v == DatumV::Bool(false) ==> (if k <= rest.len() {
                    r is Ok && iviews(final(istack)@) == iviews(rest).subrange(
                        0,
                        rest.len() - k,
                    )
                } else {
                    r is Err
                }))
                &&& (v != DatumV::Bool(false) ==> r is Ok && iviews(final(istack)@) == iviews(
                    rest,
                ))
            })
            &&& (top matches InstructionV::Return ==> r is Ok && *final(mach) == *old(mach)
                && final(vstack)@ == old(vstack)@ && iviews(final(istack)@) == unwound(
                iviews(rest),
            ))
            &&& (top matches InstructionV::Define(e, n, k) ==> (old(vstack)@.len() > 0 && 0 <= e
                < old(mach).envs.frame_count()) ==> {
                let v = old(vstack)@.last()@;
                &&& (k == DefineKind::Define || k == DefineKind::DefineSyntax ==> r is Ok
                    && final(mach).envs.frame_get(e, n) == Some(v) && final(mach).envs.frame_count() == old(mach).envs.frame_count())
                &&& (k == DefineKind::Assign ==> (match r {
                    Ok(_) => old(mach).envs.owner(e, n) is Some,
                    Err(err) => old(mach).envs.owner(e, n) is None && (err matches
                        RuntimeError::Unbound(u) && u@ == n),
                }))
            })
            &&& (top matches InstructionV::Invoke(e, form, tail) ==> (old(vstack)@.len() > 0
                && (old(vstack)@.last()@ matches DatumV::Proc(p2) && (p2 is Native || p2
                is Scheme)) && is_proper(form) && flat_elems(form).len() >= 1 && 0 <= e < old(
                mach,
            ).envs.frame_count()) ==> {
                let argvs = flat_elems(form).drop_first();
                &&& r is Ok
                &&& *final(mach) == *old(mach)
                &&& dviews(final(vstack)@) == dviews(old(vstack)@)
                &&& iviews(final(istack)@) == iviews(rest).push(
                    InstructionV::Apply(argvs.len() as int, tail),
                ) + args_sched(argvs, e)
            })
            &&& (top matches InstructionV::Apply(n, tail) ==> (old(vstack)@.len() >= n + 1) ==> {
                let procd = old(vstack)@[old(vstack)@.len() - 1 - n];
                let argvs = dviews(old(vstack)@).subrange(
                    old(vstack)@.len() - n,
                    old(vstack)@.len() as int,
                );
                &&& (procd@ matches DatumV::Proc(ProcV::Native(_)) ==> final(mach).envs == old(
                    mach,
                ).envs && (r is Ok ==> iviews(final(istack)@) == iviews(rest) && dviews(
                    final(vstack)@,
                ).len() == old(vstack)@.len() - n && dviews(final(vstack)@).subrange(
                    0,
                    old(vstack)@.len() - n - 1,
                ) == dviews(old(vstack)@).subrange(0, old(vstack)@.len() - n - 1)))
                &&& (procd@ matches DatumV::Proc(ProcV::Scheme(c)) ==> {
                    &&& (c.rest is None && c.formals.len() != n ==> r == Err::<
                        (),
                        RuntimeError,
                    >(RuntimeError::Arity))
                    &&& (c.rest is Some && n < c.formals.len() ==> r == Err::<
                        (),
                        RuntimeError,
                    >(RuntimeError::Arity))
                    &&& ((if c.rest is None {
                        c.formals.len() == n as int
                    } else {
                        n as int >= c.formals.len()
                    }) && 0 <= c.env < old(mach).envs.frame_count() && is_proper(*c.body)
                        && flat_elems(*c.body).len() >= 1 ==> {
                        let f = old(mach).envs.frame_count() as int;
                        &&& r is Ok
                        &&& final(mach).envs.frame_count() == f + 1
                        &&& final(mach).envs.parent_of(f) matches Some(p) && p == c.env
                        &&& (c.formals.no_duplicates() && (c.rest matches Some(rn)
                            ==> !c.formals.contains(rn)) ==> (forall|k: int|
                            0 <= k < c.formals.len() ==> final(mach).envs.frame_get(
                                f,
                                #[trigger] c.formals[k],
                            ) == Some(argvs[k])))
                        &&& (c.rest matches Some(rn) ==> final(mach).envs.frame_get(f, rn)
                            == Some(list_of(argvs.skip(c.formals.len() as int))))
                        &&& dviews(final(vstack)@) == dviews(old(vstack)@).subrange(
                            0,
                            old(vstack)@.len() - 1 - n,
                        )
                        &&& iviews(final(istack)@) == iviews(rest) + (if !tail {
                            seq![InstructionV::Frame]
                        } else {
                            Seq::<InstructionV>::empty()
                        }) + body_instrs(flat_elems(*c.body), f).reverse()
                    })
                })
            })
            &&& (top matches InstructionV::Invoke(e, form, tail) ==> (old(vstack)@.len() > 0
                && old(vstack)@.last()@ == DatumV::Proc(ProcV::SpecialForm(SpecialOp::Quote))
                && is_proper(form) && flat_elems(form).len() == 2 && 0 <= e < old(
                mach,
            ).envs.frame_count()) ==> r is Ok && *final(mach) == *old(mach) && iviews(
                final(istack)@,
            ) == iviews(rest).push(InstructionV::PushValue(flat_elems(form)[1])) && dviews(
                final(vstack)@,
            ) == dviews(old(vstack)@).drop_last())
        }),
{
    let ins = istack.pop().unwrap();
    let ghost rest = old(istack)@.drop_last();
    proof {
        assert(iviews(istack@) == iviews(rest));
    }
    match ins {
        Instruction::PushValue(d) => {
            let ghost pre = vstack@;
            vstack.push(d);
            proof {
                assert(dviews(vstack@) =~= dviews(pre).push(dviews(old(vstack)@.push(
                    old(istack)@.last()->PushValue_0,
                ))[pre.len() as int]));
                assert(dviews(vstack@) == dviews(pre).push(iv(old(istack)@.last())->PushValue_0));
            }
            Ok(())
        },
        Instruction::PopValue => {
            match vstack.pop() {
                Some(_) => Ok(()),
                None => Err(RuntimeError::Internal),
            }
        },
        Instruction::Evaluate(e, tail) => {
            let v = match vstack.pop() {
                Some(v) => v,
                None => {
                    return Err(RuntimeError::Internal);
                },
            };
            if is_self_evaluating(&v) {
                let ghost pre = vstack@;
                vstack.push(v);
                proof {
                    assert(dviews(vstack@) =~= dviews(old(vstack)@));
                }
                return Ok(());
            }
            if e >= mach.envs.count() {
                return Err(RuntimeError::Internal);
            }
            match v {
                Datum::Symbol(s) => {
                    match mach.envs.get(e, &s) {
                        Some(val) => {
                            let ghost pre = vstack@;
                            let ghost valv = val@;
                            vstack.push(val);
                            proof {
                                assert(dviews(vstack@) =~= dviews(pre).push(valv));
                            }
                            Ok(())
                        },
                        None => Err(RuntimeError::Unbound(copy_name(&s))),
                    }
                },
                Datum::Pair(_, _) => {
                    let ghost formv = v@;
                    let (elems, proper) = v.as_vec();
                    if !proper {
                        return Err(RuntimeError::Syntax);
                    }
                    proof {
                        assert(dviews(elems@).len() >= 1);
                        assert(dviews(elems@)[0] == flat_elems(formv)[0]);
                        assert(dviews(elems@)[0] == dv(elems@[0]));
                    }
                    let head = elems[0].clone();
                    if !tail {
                        istack.push(Instruction::Frame);
                    }
                    istack.push(Instruction::Invoke(e, v, tail));
                    istack.push(Instruction::Evaluate(e, false));
                    istack.push(Instruction::PushValue(head));
                    proof {
                        assert(iviews(istack@) =~= iviews(rest) + eval_pair_instrs(
                            e as int,
                            formv,
                            tail,
                        ));
                    }
                    Ok(())
                },
                Datum::Boolean(_) | Datum::Number(_) | Datum::Character(_) | Datum::Str(_)
                    | Datum::EmptyList | Datum::Vector(_, _) | Datum::Procedure(_)
                    | Datum::SyntaxRule(_) | Datum::Ext(_) => Err(RuntimeError::Internal),
            }
        },
        Instruction::JumpIfFalse(k) => {
            let v = match vstack.pop() {
                Some(v) => v,
                None => {
                    return Err(RuntimeError::Internal);
                },
            };
            proof {
                assert(v == old(vstack)@.last());
                assert(dviews(vstack@) =~= dviews(old(vstack)@).drop_last());
            }
            let falsey = match v {
                Datum::Boolean(b) => !b,
                Datum::Number(_) | Datum::Character(_) | Datum::Symbol(_) | Datum::Str(_)
                    | Datum::EmptyList | Datum::Pair(_, _) | Datum::Vector(_, _)
                    | Datum::Procedure(_) | Datum::SyntaxRule(_) | Datum::Ext(_) => false,
            };
            proof {
                assert(falsey == (dv(v) == DatumV::Bool(false)));
            }
            if falsey {
                if k > istack.len() {
                    return Err(RuntimeError::Internal);
                }
                let keep = istack.len() - k;
                istack.truncate(keep);
                proof {
                    assert(iviews(istack@) =~= iviews(rest).subrange(0, rest.len() - k));
                }
            }
            Ok(())
        },
        Instruction::Return => {
            loop
                invariant
                    mach.wf(),
                    *mach == *old(mach),
                    vstack@ == old(vstack)@,
                    unwound(iviews(istack@)) == unwound(iviews(rest)),
                decreases istack@.len(),
            {
                let ghost prior = istack@;
                proof {
                    if prior.len() > 0 {
                        assert(iv(prior.last()) == iviews(prior)[prior.len() - 1]);
                        assert(iviews(prior.drop_last()) =~= iviews(prior).drop_last());
                    } else {
                        assert(iviews(prior) =~= Seq::<InstructionV>::empty());
                    }
                }
                match istack.pop() {
                    Some(Instruction::Frame) => {
                        proof {
                            assert(iviews(istack@) =~= unwound(iviews(rest)));
                        }
                        break;
                    },
                    Some(Instruction::PushValue(_)) | Some(Instruction::PopValue)
                        | Some(Instruction::Evaluate(_, _)) | Some(
                        Instruction::JumpIfFalse(_),
                    ) | Some(Instruction::Return) | Some(Instruction::Define(_, _, _)) | Some(
                        Instruction::Invoke(_, _, _),
                    ) | Some(Instruction::Apply(_, _)) => {},
                    None => {
                        proof {
                            assert(iviews(istack@) =~= Seq::<InstructionV>::empty());
                            assert(iviews(istack@) =~= unwound(iviews(rest)));
                        }
                        break;
                    },
                }
            }
            Ok(())
        },
        Instruction::Define(e, name, kind) => {
            let v = match vstack.pop() {
                Some(v) => v,
                None => {
                    return Err(RuntimeError::Internal);
                },
            };
            if e >= mach.envs.count() {
                return Err(RuntimeError::Internal);
            }
            match kind {
                DefineKind::Define | DefineKind::DefineSyntax => {
                    mach.envs.define(e, name, v);
                    Ok(())
                },
                DefineKind::Assign => {
                    match mach.envs.assign(e, name, v) {
                        Ok(()) => Ok(()),
                        Err(err) => Err(err),
                    }
                },
            }
        },
        Instruction::Invoke(e, form, tail) => {
            let p = match vstack.pop() {
                Some(v) => v,
                None => {
                    return Err(RuntimeError::Internal);
                },
            };
            if e >= mach.envs.count() {
                return Err(RuntimeError::Internal);
            }
            let ghost formv = form@;
            let (elems, proper) = form.as_vec();
            if !proper || elems.len() == 0 {
                return Err(RuntimeError::Syntax);
            }
            let mut args = elems;
            let ghost ev = dviews(args@);
            let _head_form = args.remove(0);
            proof {
                assert(dviews(args@) =~= ev.drop_first());
            }
            match p {
                Datum::Procedure(Procedure::SpecialForm(op)) => {
                    proof {
                        assert(p == old(vstack)@.last());
                        if dv(p) == DatumV::Proc(ProcV::SpecialForm(SpecialOp::Quote)) {
                            assert(pv(Procedure::SpecialForm(op)) == ProcV::SpecialForm(op));
                            assert(op == SpecialOp::Quote);
                        }
                        assert(dviews(args@).len() == ev.len() - 1);
                        assert(ev =~= flat_elems(formv));
                    }
                    let instrs = special_apply(op, mach, e, &args)?;
                    let ghost iv0 = iviews(instrs@);
                    splice(istack, instrs);
                    proof {
                        if op == SpecialOp::Quote {
                            assert(ev.len() == 2);
                            assert(dviews(args@).len() == 1);
                            assert(dviews(args@)[0] == ev[1]);
                            assert(ev[1] == flat_elems(formv)[1]);
                            assert(iv0 =~= seq![InstructionV::PushValue(flat_elems(formv)[1])]);
                            assert(iv0.reverse() =~= iv0);
                            assert(iviews(istack@) =~= iviews(rest).push(
                                InstructionV::PushValue(flat_elems(formv)[1]),
                            ));
                        }
                    }
                    Ok(())
                },
                Datum::SyntaxRule(m) => {
                    let instrs = crate::builtin::expand_macro(mach, e, &m, &form)?;
                    splice(istack, instrs);
                    Ok(())
                },
                Datum::Procedure(Procedure::Native(_)) | Datum::Procedure(Procedure::Scheme(_)) => {
                    let n = args.len();
                    let ghost argvs = dviews(args@);
                    proof {
                        assert(argvs =~= flat_elems(formv).drop_first());
                        assert(dviews(vstack@) =~= dviews(old(vstack)@).drop_last());
                    }
                    vstack.push(p);
                    proof {
                        assert(dviews(vstack@) =~= dviews(old(vstack)@));
                    }
                    istack.push(Instruction::Apply(n, tail));
                    let ghost ibase = iviews(istack@);
                    proof {
                        assert(ibase =~= iviews(rest).push(
                            InstructionV::Apply(n as int, tail),
                        ));
                        assert(args_sched(Seq::<DatumV>::empty(), e as int)
                            =~= Seq::<InstructionV>::empty());
                        assert(ibase + args_sched(argvs, e as int) =~= iviews(istack@)
                            + args_sched(dviews(args@), e as int));
                    }
                    let mut args = args;
                    while args.len() > 0
                        invariant
                            mach.wf(),
                            *mach == *old(mach),
                            dviews(vstack@) =~= dviews(old(vstack)@),
                            dviews(args@) =~= argvs.subrange(0, args@.len() as int),
                            args@.len() <= argvs.len(),
                            ibase + args_sched(argvs, e as int) =~= iviews(istack@)
                                + args_sched(dviews(args@), e as int),
                        decreases args@.len(),
                    {
                        let ghost prev = dviews(args@);
                        let a = args.pop().unwrap();
                        proof {
                            assert(dv(a) == prev[prev.len() - 1]);
                            assert(dviews(args@) =~= prev.drop_last());
                            assert(prev.last() == dv(a));
                        }
                        let ghost ipre = iviews(istack@);
                        istack.push(Instruction::Evaluate(e, false));
                        istack.push(Instruction::PushValue(a));
                        proof {
                            assert(iviews(istack@) =~= ipre + seq![
                                InstructionV::Evaluate(e as int, false),
                                InstructionV::PushValue(prev.last()),
                            ]);
                            assert(args_sched(prev, e as int) =~= seq![
                                InstructionV::Evaluate(e as int, false),
                                InstructionV::PushValue(prev.last()),
                            ] + args_sched(prev.drop_last(), e as int));
                            assert(ibase + args_sched(argvs, e as int) =~= iviews(istack@)
                                + args_sched(dviews(args@), e as int));
                        }
                    }
                    proof {
                        assert(args_sched(dviews(args@), e as int)
                            =~= Seq::<InstructionV>::empty());
                        assert(iviews(istack@) =~= ibase + args_sched(argvs, e as int));
                    }
                    Ok(())
                },
                Datum::Boolean(_) | Datum::Number(_) | Datum::Character(_) | Datum::Symbol(_)
                    | Datum::Str(_) | Datum::EmptyList | Datum::Pair(_, _)
                    | Datum::Vector(_, _) | Datum::Ext(_) => Err(RuntimeError::Type),
            }
        },
        Instruction::Frame => Ok(()),
        Instruction::Apply(n, tail) => {
            if vstack.len() < n || vstack.len() - n < 1 {
                return Err(RuntimeError::Internal);
            }
            let at = vstack.len() - n;
            let args = vstack.split_off(at);
            let p = vstack.pop().unwrap();
            let ghost vlen = old(vstack)@.len() as int;
            let ghost argvs = dviews(old(vstack)@).subrange(vlen - n, vlen);
            proof {
                assert(args@ =~= old(vstack)@.subrange(vlen - n, vlen));
                assert(p == old(vstack)@[vlen - 1 - n]);
                assert(vstack@ =~= old(vstack)@.subrange(0, vlen - 1 - n));
                assert(dviews(args@) =~= argvs) by {
                    assert forall|k: int| 0 <= k < n implies dviews(args@)[k] == argvs[k] by {
                        assert(dviews(args@)[k] == dv(args@[k]));
                        assert(argvs[k] == dviews(old(vstack)@)[vlen - n + k]);
                        assert(dviews(old(vstack)@)[vlen - n + k] == dv(
                            old(vstack)@[vlen - n + k],
                        ));
                    }
                }
                assert(dviews(vstack@) =~= dviews(old(vstack)@).subrange(0, vlen - 1 - n)) by {
                    assert forall|k: int| 0 <= k < vlen - 1 - n implies dviews(vstack@)[k]
                        == dviews(old(vstack)@)[k] by {
                        assert(dviews(vstack@)[k] == dv(vstack@[k]));
                        assert(dviews(old(vstack)@)[k] == dv(old(vstack)@[k]));
                    }
                }
            }
            match p {
                Datum::Procedure(Procedure::Native(op)) => {
                    proof {
                        assert(pv(Procedure::Native(op)) == ProcV::Native(op));
                        assert(dv(p) == DatumV::Proc(ProcV::Native(op)));
                    }
                    let result = native_apply(op, mach, &args)?;
                    let ghost pre = vstack@;
                    vstack.push(result);
                    proof {
                        assert(dviews(vstack@) =~= dviews(pre).push(dv(result)));
                        assert(dviews(vstack@).subrange(0, vlen - n - 1) =~= dviews(pre));
                    }
                    Ok(())
                },
                Datum::Procedure(Procedure::Scheme(c)) => {
                    let ghost cv = pv(Procedure::Scheme(c));
                    proof {
                        assert(dv(p) == DatumV::Proc(cv));
                    }
                    if c.rest.is_none() {
                        if args.len() != c.formals.len() {
                            return Err(RuntimeError::Arity);
                        }
                    } else {
                        if args.len() < c.formals.len() {
                            return Err(RuntimeError::Arity);
                        }
                    }
                    if c.env >= mach.envs.count() {
                        return Err(RuntimeError::Internal);
                    }
                    let frame = mach.envs.new_child(c.env);
                    let ghost fnames = crate::datum::names_view(c.formals@);
                    let mut i: usize = 0;
                    while i < c.formals.len()
                        invariant
                            mach.wf(),
                            frame < mach.envs.frame_count(),
                            frame == old(mach).envs.frame_count(),
                            mach.envs.frame_count() == old(mach).envs.frame_count() + 1,
                            mach.envs.parent_of(frame as int) == Some(c.env),
                            i <= c.formals@.len(),
                            c.formals@.len() <= args@.len(),
                            args@.len() == n,
                            dviews(args@) == argvs,
                            fnames.no_duplicates() ==> (forall|k: int|
                                0 <= k < i ==> mach.envs.frame_get(
                                    frame as int,
                                    #[trigger] fnames[k],
                                ) == Some(argvs[k])),
                        decreases c.formals@.len() - i,
                    {
                        proof {
                            assert(fnames[i as int] == c.formals@[i as int]@);
                            assert(dviews(args@)[i as int] == dv(args@[i as int]));
                        }
                        mach.envs.define(
                            frame,
                            crate::datum::rc_clone(&c.formals[i]),
                            args[i].clone(),
                        );
                        proof {
                            if fnames.no_duplicates() {
                                assert forall|k: int| 0 <= k < i + 1 implies mach.envs.frame_get(
                                    frame as int,
                                    #[trigger] fnames[k],
                                ) == Some(argvs[k]) by {
                                    if k < i {
                                        assert(fnames[k] != fnames[i as int]);
                                    }
                                }
                            }
                        }
                        i = i + 1;
                    }
                    match &c.rest {
                        Some(rest_name) => {
                            let mut extras: Vec<Datum> = Vec::new();
                            let mut j: usize = c.formals.len();
                            while j < args.len()
                                invariant
                                    mach.wf(),
                                    c.formals@.len() <= j <= args@.len(),
                                    dviews(args@) == argvs,
                                    dviews(extras@) =~= argvs.subrange(
                                        c.formals@.len() as int,
                                        j as int,
                                    ),
                                decreases args@.len() - j,
                            {
                                let ghost pre = dviews(extras@);
                                extras.push(args[j].clone());
                                proof {
                                    assert(dviews(extras@) =~= pre.push(dv(args@[j as int])));
                                    assert(dviews(args@)[j as int] == dv(args@[j as int]));
                                    assert(dviews(extras@) =~= argvs.subrange(
                                        c.formals@.len() as int,
                                        j + 1,
                                    ));
                                }
                                j = j + 1;
                            }
                            proof {
                                assert(argvs.subrange(c.formals@.len() as int, args@.len() as int)
                                    =~= argvs.skip(c.formals@.len() as int));
                            }
                            let rest_list = Datum::list(extras);
                            mach.envs.define(
                                frame,
                                crate::datum::rc_clone(rest_name),
                                rest_list,
                            );
                            proof {
                                if fnames.no_duplicates() && !fnames.contains(rest_name@) {
                                    assert forall|k: int|
                                        0 <= k < fnames.len() implies mach.envs.frame_get(
                                        frame as int,
                                        #[trigger] fnames[k],
                                    ) == Some(argvs[k]) by {
                                        assert(fnames[k] != rest_name@);
                                    }
                                }
                            }
                        },
                        None => {},
                    }
                    let (body_forms, body_proper) = c.body.as_vec();
                    if !body_proper || body_forms.len() == 0 {
                        return Err(RuntimeError::Internal);
                    }
                    if !tail {
                        istack.push(Instruction::Frame);
                    }
                    let ghost ibase = iviews(istack@);
                    let mut body_instructions: Vec<Instruction> = Vec::new();
                    emit_body(&body_forms, 0, frame, &mut body_instructions);
                    proof {
                        assert(dviews(body_forms@).skip(0) =~= dviews(body_forms@));
                        assert(dviews(body_forms@) =~= flat_elems(dv(*c.body)));
                    }
                    splice(istack, body_instructions);
                    proof {
                        if !tail {
                            assert(ibase =~= iviews(rest).push(InstructionV::Frame));
                        } else {
                            assert(ibase =~= iviews(rest));
                        }
                        assert(iviews(istack@) =~= ibase + body_instrs(
                            flat_elems(dv(*c.body)),
                            frame as int,
                        ).reverse());
                    }
                    Ok(())
                },
                Datum::Procedure(Procedure::SpecialForm(_)) | Datum::Boolean(_)
                    | Datum::Number(_) | Datum::Character(_) | Datum::Symbol(_) | Datum::Str(_)
                    | Datum::EmptyList | Datum::Pair(_, _) | Datum::Vector(_, _)
                    | Datum::SyntaxRule(_) | Datum::Ext(_) => Err(RuntimeError::Type),
            }
        },
    }
}

/// The name of the `quote` special form.
pub open spec fn quote_name() -> Seq<char> {
    "quote"@
}

/// A form `(quote x)`: a two-element proper list headed by the symbol
/// `quote`.
pub open spec fn quote_form(v: DatumV) -> bool {
    match v {
        DatumV::Pair(h, t) => *h == DatumV::Sym(quote_name()) && match *t {
            DatumV::Pair(_, n) => *n is Nil,
            _ => false,
        },
        _ => false,
    }
}

/// The operand of a `(quote x)` form.
pub open spec fn quote_payload(v: DatumV) -> DatumV {
    match v {
        DatumV::Pair(_, t) => match *t {
            DatumV::Pair(x, _) => *x,
            _ => v,
        },
        _ => v,
    }
}

/// Evaluates one datum in the given frame by running the machine until the
/// instruction stack empties; the result is the top of the value stack.
/// The loop is iterative and procedure application splices instructions
/// instead of recursing, so deep tail recursion in programs cannot grow
/// the native call stack.
///
/// Two laws are part of the contract.  Self-evaluation: every datum that
/// is neither a symbol nor a pair evaluates to itself.  Quotation: when
/// `quote` has its standard binding, `(quote x)` evaluates to `x`, for
/// every datum `x`.
#[verifier::loop_isolation(false)]
pub fn evaluate(mach: &mut Machine, d: &Datum, env: usize) -> (r: Result<Datum, RuntimeError>)
    requires
        old(mach).wf(),
        env < old(mach).envs.frame_count(),
    ensures
        final(mach).wf(),
        final(mach).envs.frame_count() >= old(mach).envs.frame_count(),
        self_evaluating(d@) ==> (r matches Ok(v) && v@ == d@),
        (quote_form(d@) && old(mach).envs.lookup(env as int, quote_name()) == Some(
            DatumV::Proc(ProcV::SpecialForm(SpecialOp::Quote)),
        )) ==> (r matches Ok(v) && v@ == quote_payload(d@)),
        d@ matches DatumV::Sym(s) ==> (match old(mach).envs.lookup(env as int, s) {
            Some(v) => r matches Ok(x) && x@ == v,
            None => r matches Err(err) && (err matches RuntimeError::Unbound(u) && u@ == s),
        }),
{
    let ghost h1 = self_evaluating(d@);
    let ghost h2 = quote_form(d@) && old(mach).envs.lookup(env as int, quote_name()) == Some(
        DatumV::Proc(ProcV::SpecialForm(SpecialOp::Quote)),
    );
    let ghost h3 = d@ is Sym;
    proof {
        if quote_form(d@) {
            let t = d@->Pair_1;
            assert(is_proper(DatumV::Nil));
            assert(is_proper(*t));
            assert(is_proper(d@));
            assert(flat_elems(*t->Pair_1) =~= Seq::<DatumV>::empty());
            assert(flat_elems(*t) =~= seq![quote_payload(d@)]);
            assert(flat_elems(d@) =~= seq![DatumV::Sym(quote_name()), quote_payload(d@)]);
        }
    }
    let mut istack: Vec<Instruction> = Vec::new();
    let mut vstack: Vec<Datum> = Vec::new();
    istack.push(Instruction::Evaluate(env, false));
    istack.push(Instruction::PushValue(d.clone()));
    proof {
        assert(iviews(istack@) =~= seq![
            InstructionV::Evaluate(env as int, false),
            InstructionV::PushValue(d@),
        ]);
        assert(dviews(vstack@) =~= Seq::<DatumV>::empty());
    }
    let mut fuel: u64 = 0xffff_ffff_ffff_ffffu64;
    while istack.len() > 0
        invariant
            mach.wf(),
            mach.envs.frame_count() >= old(mach).envs.frame_count(),
            h1 ==> *mach == *old(mach) && ({
                ||| (iviews(istack@) =~= seq![
                    InstructionV::Evaluate(env as int, false),
                    InstructionV::PushValue(d@),
                ] && dviews(vstack@) =~= Seq::<DatumV>::empty() && fuel >= 2)
                ||| (iviews(istack@) =~= seq![InstructionV::Evaluate(env as int, false)]
                    && dviews(vstack@) =~= seq![d@] && fuel >= 1)
                ||| (istack@.len() == 0 && dviews(vstack@) =~= seq![d@])
            }),
            h3 ==> *mach == *old(mach) && ({
                ||| (iviews(istack@) =~= seq![
                    InstructionV::Evaluate(env as int, false),
                    InstructionV::PushValue(d@),
                ] && dviews(vstack@) =~= Seq::<DatumV>::empty() && fuel >= 2)
                ||| (iviews(istack@) =~= seq![InstructionV::Evaluate(env as int, false)]
                    && dviews(vstack@) =~= seq![d@] && fuel >= 1)
                ||| (istack@.len() == 0 && old(mach).envs.lookup(env as int, d@->Sym_0) is Some
                    && dviews(vstack@) =~= seq![
                    old(mach).envs.lookup(env as int, d@->Sym_0)->Some_0,
                ])
            }),
            h2 ==> *mach == *old(mach) && ({
                ||| (iviews(istack@) =~= seq![
                    InstructionV::Evaluate(env as int, false),
                    InstructionV::PushValue(d@),
                ] && dviews(vstack@) =~= Seq::<DatumV>::empty() && fuel >= 8)
                ||| (iviews(istack@) =~= seq![InstructionV::Evaluate(env as int, false)]
                    && dviews(vstack@) =~= seq![d@] && fuel >= 7)
                ||| (iviews(istack@) =~= seq![
                    InstructionV::Frame,
                    InstructionV::Invoke(env as int, d@, false),
                    InstructionV::Evaluate(env as int, false),
                    InstructionV::PushValue(DatumV::Sym(quote_name())),
                ] && dviews(vstack@) =~= Seq::<DatumV>::empty() && fuel >= 6)
                ||| (iviews(istack@) =~= seq![
                    InstructionV::Frame,
                    InstructionV::Invoke(env as int, d@, false),
                    InstructionV::Evaluate(env as int, false),
                ] && dviews(vstack@) =~= seq![DatumV::Sym(quote_name())] && fuel >= 5)
                ||| (iviews(istack@) =~= seq![
                    InstructionV::Frame,
                    InstructionV::Invoke(env as int, d@, false),
                ] && dviews(vstack@) =~= seq![
                    DatumV::Proc(ProcV::SpecialForm(SpecialOp::Quote)),
                ] && fuel >= 4)
                ||| (iviews(istack@) =~= seq![
                    InstructionV::Frame,
                    InstructionV::PushValue(quote_payload(d@)),
                ] && dviews(vstack@) =~= Seq::<DatumV>::empty() && fuel >= 3)
                ||| (iviews(istack@) =~= seq![InstructionV::Frame] && dviews(vstack@) =~= seq![
                    quote_payload(d@),
                ] && fuel >= 2)
                ||| (istack@.len() == 0 && dviews(vstack@) =~= seq![quote_payload(d@)])
            }),
        decreases fuel,
    {
        if fuel == 0 {
            proof {
                if h1 {
                    assert(false);
                }
                if h2 {
                    assert(false);
                }
                if h3 {
                    assert(false);
                }
            }
            return Err(RuntimeError::Internal);
        }
        fuel = fuel - 1;
        let ghost pre_i = istack@;
        let ghost pre_v = vstack@;
        match step(mach, &mut istack, &mut vstack) {
            Ok(()) => {
                proof {
                    if h1 || h2 || h3 {
                        assert(iviews(pre_i).len() == pre_i.len());
                        assert(iv(pre_i.last()) == iviews(pre_i)[pre_i.len() - 1]);
                        assert(iviews(pre_i.drop_last()) =~= iviews(pre_i).drop_last());
                        if h2 {
                            assert(flat_elems(d@)[0] == DatumV::Sym(quote_name()));
                            assert(flat_elems(d@)[1] == quote_payload(d@));
                            assert(flat_elems(d@).len() == 2);
                        }
                        if pre_v.len() > 0 {
                            assert(dv(pre_v.last()) == dviews(pre_v)[pre_v.len() - 1]);
                            assert(dviews(pre_v.drop_last()) =~= dviews(pre_v).drop_last());
                        }
                    }
                }
            },
            Err(e) => {
                proof {
                    assert(iviews(pre_i).len() == pre_i.len());
                    assert(iv(pre_i.last()) == iviews(pre_i)[pre_i.len() - 1]);
                    if pre_v.len() > 0 {
                        assert(dv(pre_v.last()) == dviews(pre_v)[pre_v.len() - 1]);
                    }
                    if h1 {
                        assert(false);
                    }
                    if h2 {
                        assert(false);
                    }
                    if h3 {
                        assert(old(mach).envs.lookup(env as int, d@->Sym_0) is None);
                    }
                }
                return Err(e);
            },
        }
    }
    let ghost pre_pop = vstack@;
    match vstack.pop() {
        Some(v) => {
            proof {
                if h1 || h2 || h3 {
                    assert(v == pre_pop[pre_pop.len() - 1]);
                    assert(dviews(pre_pop)[pre_pop.len() - 1] == dv(pre_pop[pre_pop.len() - 1]));
                }
            }
            Ok(v)
        },
        None => {
            proof {
                if h1 {
                    assert(false);
                }
                if h2 {
                    assert(false);
                }
                if h3 {
                    assert(false);
                }
            }
            Err(RuntimeError::Internal)
        },
    }
}

} // verus!
