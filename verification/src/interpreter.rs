use crate::datum::{self_evaluating, str_chars, Datum, DatumV, ProcV, SpecialOp};
use crate::error::RuntimeError;
use crate::vm::{evaluate, quote_form, quote_name, quote_payload, Machine};
use std::rc::Rc;
use vstd::prelude::*;

verus! {

/// The interpreter facade: a long-lived machine whose global frame is
/// pre-populated with all built-ins.  Successive runs share and mutate
/// that environment.
pub struct Interpreter {
    pub mach: Machine,
}

impl Interpreter {
    pub open spec fn wf(self) -> bool {
        &&& self.mach.wf()
        &&& self.mach.envs.frame_count() >= 1
    }

    /// Whether `quote` still has its standard binding in the global frame.
    pub open spec fn quote_bound(self) -> bool {
        self.mach.envs.lookup(0, quote_name()) == Some(
            DatumV::Proc(ProcV::SpecialForm(SpecialOp::Quote)),
        )
    }

    /// A fresh interpreter with the built-in global environment.
    #[verifier::loop_isolation(false)]
    pub fn new() -> (r: Self)
        ensures
            r.wf(),
            r.quote_bound(),
    {
        let mut mach = Machine::new();
        let builtins = crate::builtin::get_builtins();
        let ghost quote_v = DatumV::Proc(ProcV::SpecialForm(SpecialOp::Quote));
        let mut i: usize = 0;
        while i < builtins.len()
            invariant
                mach.wf(),
                mach.envs.frame_count() >= 1,
                builtins@.len() == 48,
                i <= builtins@.len(),
                i > 7 ==> mach.envs.frame_get(0, quote_name()) == Some(quote_v),
                i > 7 ==> mach.envs.frame_dom(0).contains(quote_name()),
            decreases builtins@.len() - i,
        {
            let (name, d) = (builtins[i].0, builtins[i].1.clone());
            let name_chars = Rc::new(str_chars(name));
            proof {
                if i != 7 {
                    assert(builtins@[i as int].0@ != quote_name());
                    assert(name_chars@ != quote_name());
                } else {
                    assert(name_chars@ == quote_name());
                    assert(d@ == quote_v);
                }
            }
            mach.envs.define(0, name_chars, d);
            i = i + 1;
        }
        proof {
            assert(mach.envs.lookup(0, quote_name()) == Some(quote_v));
        }
        Interpreter { mach }
    }

    /// Evaluates one datum in the global environment.
    ///
    /// Self-evaluation: every non-symbol, non-pair datum evaluates to
    /// itself.  Quotation: while `quote` keeps its standard binding,
    /// `(quote x)` evaluates to `x` for every datum `x`.
    pub fn run_datum(&mut self, d: &Datum) -> (r: Result<Datum, RuntimeError>)
        requires
            old(self).wf(),
        ensures
            final(self).wf(),
            self_evaluating(d@) ==> (r matches Ok(v) && v@ == d@),
            old(self).quote_bound() && quote_form(d@) ==> (r matches Ok(v) && v@
                == quote_payload(d@)),
            d@ matches DatumV::Sym(s) ==> (match old(self).mach.envs.lookup(0, s) {
                Some(v) => r matches Ok(x) && x@ == v,
                None => r matches Err(err) && (err matches RuntimeError::Unbound(u) && u@ == s),
            }),
    {
        evaluate(&mut self.mach, d, 0)
    }

    /// Evaluates the forms in order in the global environment; the value of
    /// the last form is returned, the empty list when there are none.  A
    /// single form is owed the same results as [`Self::run_datum`].
    pub fn run_forms(&mut self, forms: &Vec<Datum>) -> (r: Result<Datum, RuntimeError>)
        requires
            old(self).wf(),
        ensures
            final(self).wf(),
            forms@.len() == 0 ==> (r matches Ok(v) && v@ == DatumV::Nil),
            forms@.len() == 1 && self_evaluating(forms@[0]@) ==> (r matches Ok(v) && v@
                == forms@[0]@),
            forms@.len() == 1 && old(self).quote_bound() && quote_form(forms@[0]@) ==> (r matches
                Ok(v) && v@ == quote_payload(forms@[0]@)),
            forms@.len() == 1 ==> (forms@[0]@ matches DatumV::Sym(s) ==> (match old(
                self,
            ).mach.envs.lookup(0, s) {
                Some(v) => r matches Ok(x) && x@ == v,
                None => r matches Err(err) && (err matches RuntimeError::Unbound(u) && u@ == s),
            })),
    {
        let mut result = Datum::EmptyList;
        let mut i: usize = 0;
        while i < forms.len()
            invariant
                self.wf(),
                i <= forms@.len(),
                i == 0 ==> *self == *old(self),
                forms@.len() == 1 && i == 1 ==> ({
                    &&& (self_evaluating(forms@[0]@) ==> result@ == forms@[0]@)
                    &&& (old(self).quote_bound() && quote_form(forms@[0]@) ==> result@
                        == quote_payload(forms@[0]@))
                    &&& (forms@[0]@ matches DatumV::Sym(s) ==> old(self).mach.envs.lookup(0, s)
                        is Some && result@ == old(self).mach.envs.lookup(0, s)->Some_0)
                }),
                forms@.len() == 0 ==> result@ == DatumV::Nil,
            decreases forms@.len() - i,
        {
            let ghost pre = *self;
            result = match evaluate(&mut self.mach, &forms[i], 0) {
                Ok(v) => v,
                Err(e) => {
                    return Err(e);
                },
            };
            i = i + 1;
        }
        Ok(result)
    }

    /// Reads every top-level form of the source text and hands them to
    /// [`Self::run_forms`].  The mapping from text to forms is the external
    /// reader interface; the evaluation guarantees live on `run_forms` and
    /// `run_datum`.
    pub fn run(&mut self, src: &str) -> (r: Result<Datum, RuntimeError>)
        requires
            old(self).wf(),
        ensures
            final(self).wf(),
    {
        let forms = crate::reader::read_all(&mut self.mach, src)?;
        self.run_forms(&forms)
    }

    /// The printed representation of a datum.
    pub fn print(&self, d: &Datum) -> (r: String)
        ensures
            r@ == crate::printer::print_rep(d@),
    {
        crate::printer::print_string(d)
    }
}

} // verus!
