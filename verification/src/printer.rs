use crate::datum::{dv, Datum, DatumV};
use crate::numtext::int_text;
use std::rc::Rc;
use vstd::prelude::*;

verus! {

/// The printed form of a string body: `"` and `\` are escaped with a
/// backslash.
pub open spec fn escaped(s: Seq<char>) -> Seq<char>
    decreases s.len(),
{
    if s.len() == 0 {
        Seq::empty()
    } else {
        (if s[0] == '"' || s[0] == '\\' {
            seq!['\\', s[0]]
        } else {
            seq![s[0]]
        }) + escaped(s.drop_first())
    }
}

/// The printed representation of an atom (not a pair, list or vector).
pub open spec fn atom_rep(v: DatumV) -> Seq<char> {
    match v {
        DatumV::Bool(b) => if b {
            seq!['#', 't']
        } else {
            seq!['#', 'f']
        },
        DatumV::Num(n) => int_text(n),
        DatumV::Char(c) => seq!['#', '\\', c],
        DatumV::Sym(s) => s,
        DatumV::Str(s) => seq!['"'] + escaped(s) + seq!['"'],
        DatumV::Proc(_) => "#<procedure>"@,
        DatumV::Syntax(_) => "#<syntax-rules>"@,
        DatumV::Ext(_) => "#<ext:hash-table>"@,
        _ => Seq::empty(),
    }
}

/// The printed representation of a datum: booleans as `#t`/`#f`, integers
/// in decimal, characters as `#\x`, strings quoted with escapes, symbols
/// bare, pairs as `(a b . d)` (dotted only when improper), vectors as
/// `#(...)`, and opaque forms for procedures, macros and host objects.
pub open spec fn print_rep(v: DatumV) -> Seq<char>
    decreases v, 1int,
{
    match v {
        DatumV::Nil => seq!['(', ')'],
        DatumV::Pair(_, _) => seq!['('] + print_tail(v) + seq![')'],
        DatumV::Vector(_, elems) => seq!['#', '('] + print_tail(*elems) + seq![')'],
        _ => atom_rep(v),
    }
}

/// The interior of a printed list: elements separated by spaces, a dotted
/// tail for an improper list.
pub open spec fn print_tail(v: DatumV) -> Seq<char>
    decreases v, 0int,
{
    match v {
        DatumV::Nil => Seq::empty(),
        DatumV::Pair(h, t) => print_rep(*h) + (match *t {
            DatumV::Nil => Seq::<char>::empty(),
            DatumV::Pair(_, _) => seq![' '] + print_tail(*t),
            _ => seq![' ', '.', ' '] + print_rep(*t),
        }),
        DatumV::Vector(_, elems) => seq!['#', '('] + print_tail(*elems) + seq![')'],
        _ => atom_rep(v),
    }
}

/// Appends the printed representation of an atom.
fn write_atom(d: &Datum, out: &mut Vec<char>)
    ensures
        final(out)@ == old(out)@ + atom_rep(d@),
{
    let ghost pre = out@;
    match d {
        Datum::Boolean(b) => {
            out.push('#');
            if *b {
                out.push('t');
            } else {
                out.push('f');
            }
            proof {
                assert(out@ =~= pre + atom_rep(d@));
            }
        },
        Datum::Number(n) => {
            let digits = crate::numtext::format_i64(*n);
            let mut i: usize = 0;
            while i < digits.len()
                invariant
                    i <= digits@.len(),
                    digits@ == int_text(dv(*d)->Num_0),
                    out@ =~= pre + digits@.subrange(0, i as int),
                decreases digits@.len() - i,
            {
                out.push(digits[i]);
                proof {
                    assert(out@ =~= pre + digits@.subrange(0, i + 1));
                }
                i = i + 1;
            }
            proof {
                assert(digits@.subrange(0, digits@.len() as int) =~= digits@);
                assert(out@ =~= pre + atom_rep(d@));
            }
        },
        Datum::Character(c) => {
            out.push('#');
            out.push('\\');
            out.push(*c);
            proof {
                assert(out@ =~= pre + atom_rep(d@));
            }
        },
        Datum::Symbol(s) => {
            let mut i: usize = 0;
            while i < s.len()
                invariant
                    i <= s@.len(),
                    dv(*d) == DatumV::Sym(s@),
                    out@ =~= pre + s@.subrange(0, i as int),
                decreases s@.len() - i,
            {
                out.push(s[i]);
                proof {
                    assert(out@ =~= pre + s@.subrange(0, i + 1));
                }
                i = i + 1;
            }
            proof {
                assert(s@.subrange(0, s@.len() as int) =~= s@);
                assert(out@ =~= pre + atom_rep(d@));
            }
        },
        Datum::Str(s) => {
            out.push('"');
            let ghost mid0 = out@;
            let mut i: usize = 0;
            while i < s.len()
                invariant
                    i <= s@.len(),
                    dv(*d) == DatumV::Str(s@),
                    out@ =~= mid0 + escaped(s@.subrange(0, i as int)),
                decreases s@.len() - i,
            {
                let c = s[i];
                if c == '"' || c == '\\' {
                    out.push('\\');
                }
                out.push(c);
                proof {
                    lemma_escaped_snoc(s@.subrange(0, i as int), c);
                    assert(s@.subrange(0, i + 1) =~= s@.subrange(0, i as int).push(c));
                    assert(out@ =~= mid0 + escaped(s@.subrange(0, i + 1)));
                }
                i = i + 1;
            }
            out.push('"');
            proof {
                assert(s@.subrange(0, s@.len() as int) =~= s@);
                assert(out@ =~= pre + atom_rep(d@));
            }
        },
        Datum::EmptyList => {
            proof {
                assert(out@ =~= pre + atom_rep(d@));
            }
        },
        Datum::Pair(_, _) => {
            proof {
                assert(out@ =~= pre + atom_rep(d@));
            }
        },
        Datum::Vector(_, _) => {
            proof {
                assert(out@ =~= pre + atom_rep(d@));
            }
        },
        Datum::Procedure(_) => {
            push_str_chars(out, "#<procedure>");
            proof {
                assert(out@ =~= pre + atom_rep(d@));
            }
        },
        Datum::SyntaxRule(_) => {
            push_str_chars(out, "#<syntax-rules>");
            proof {
                assert(out@ =~= pre + atom_rep(d@));
            }
        },
        Datum::Ext(_) => {
            push_str_chars(out, "#<ext:hash-table>");
            proof {
                assert(out@ =~= pre + atom_rep(d@));
            }
        },
    }
}

/// Appends the printed representation of a datum.
pub fn write_datum(d: &Datum, out: &mut Vec<char>)
    ensures
        final(out)@ == old(out)@ + print_rep(d@),
    decreases *d, 1int,
{
    let ghost pre = out@;
    match d {
        Datum::EmptyList => {
            out.push('(');
            out.push(')');
            proof {
                assert(out@ =~= pre + print_rep(d@));
            }
        },
        Datum::Pair(_, _) => {
            out.push('(');
            write_tail(d, out);
            out.push(')');
            proof {
                assert(out@ =~= pre + print_rep(d@));
            }
        },
        Datum::Vector(_, elems) => {
            out.push('#');
            out.push('(');
            write_tail(&**elems, out);
            out.push(')');
            proof {
                assert(out@ =~= pre + print_rep(d@));
            }
        },
        Datum::Boolean(_) | Datum::Number(_) | Datum::Character(_) | Datum::Symbol(_)
            | Datum::Str(_) | Datum::Procedure(_) | Datum::SyntaxRule(_) | Datum::Ext(_) => {
            write_atom(d, out);
            proof {
                assert(print_rep(d@) == atom_rep(d@));
            }
        },
    }
}

proof fn lemma_escaped_snoc(s: Seq<char>, c: char)
    ensures
        escaped(s.push(c)) == escaped(s) + (if c == '"' || c == '\\' {
            seq!['\\', c]
        } else {
            seq![c]
        }),
    decreases s.len(),
{
    reveal_with_fuel(escaped, 3);
    assert(s.push(c).len() == s.len() + 1);
    if s.len() == 0 {
        assert(s.push(c)[0] == c);
        assert(s.push(c).drop_first() =~= Seq::<char>::empty());
        assert(escaped(s.push(c)) =~= escaped(s) + (if c == '"' || c == '\\' {
            seq!['\\', c]
        } else {
            seq![c]
        }));
    } else {
        assert(s.push(c)[0] == s[0]);
        assert(s.push(c).drop_first() =~= s.drop_first().push(c));
        lemma_escaped_snoc(s.drop_first(), c);
        assert(escaped(s.push(c)) =~= escaped(s) + (if c == '"' || c == '\\' {
            seq!['\\', c]
        } else {
            seq![c]
        }));
    }
}

/// Appends the characters of a literal.
fn push_str_chars(out: &mut Vec<char>, s: &str)
    ensures
        final(out)@ == old(out)@ + s@,
{
    let cs = crate::datum::str_chars(s);
    let mut i: usize = 0;
    while i < cs.len()
        invariant
            i <= cs@.len(),
            cs@ == s@,
            out@ =~= old(out)@ + cs@.subrange(0, i as int),
        decreases cs@.len() - i,
    {
        out.push(cs[i]);
        proof {
            assert(out@ =~= old(out)@ + cs@.subrange(0, i + 1));
        }
        i = i + 1;
    }
    proof {
        assert(cs@.subrange(0, cs@.len() as int) =~= cs@);
    }
}

/// Appends the interior of a printed list.
fn write_tail(d: &Datum, out: &mut Vec<char>)
    ensures
        final(out)@ == old(out)@ + print_tail(d@),
    decreases *d, 0int,
{
    let ghost pre = out@;
    match d {
        Datum::EmptyList => {
            proof {
                assert(out@ =~= pre + print_tail(d@));
            }
        },
        Datum::Pair(h, t) => {
            write_datum(&**h, out);
            match &**t {
                Datum::EmptyList => {
                    proof {
                        assert(dv(**t) is Nil);
                        assert(print_tail(d@) =~= print_rep(dv(**h)));
                        assert(out@ =~= pre + print_tail(d@));
                    }
                },
                Datum::Pair(_, _) => {
                    out.push(' ');
                    write_tail(&**t, out);
                    proof {
                        assert(out@ =~= pre + print_tail(d@));
                    }
                },
                Datum::Boolean(_) | Datum::Number(_) | Datum::Character(_) | Datum::Symbol(_)
                    | Datum::Str(_) | Datum::Vector(_, _) | Datum::Procedure(_)
                    | Datum::SyntaxRule(_) | Datum::Ext(_) => {
                    out.push(' ');
                    out.push('.');
                    out.push(' ');
                    write_datum(&**t, out);
                    proof {
                        assert(out@ =~= pre + print_tail(d@));
                    }
                },
            }
        },
        Datum::Vector(_, elems) => {
            out.push('#');
            out.push('(');
            write_tail(&**elems, out);
            out.push(')');
            proof {
                assert(out@ =~= pre + print_tail(d@));
            }
        },
        Datum::Boolean(_) | Datum::Number(_) | Datum::Character(_) | Datum::Symbol(_)
            | Datum::Str(_) | Datum::Procedure(_) | Datum::SyntaxRule(_) | Datum::Ext(_) => {
            write_atom(d, out);
            proof {
                assert(print_tail(d@) == atom_rep(d@));
            }
        },
    }
}

/// The printed representation of a datum, as characters.
pub fn print_datum(d: &Datum) -> (r: Vec<char>)
    ensures
        r@ == print_rep(d@),
{
    let mut out: Vec<char> = Vec::new();
    write_datum(d, &mut out);
    proof {
        assert(Seq::<char>::empty() + print_rep(d@) =~= print_rep(d@));
    }
    out
}

/// The printed representation of a datum, as a string.
pub fn print_string(d: &Datum) -> (r: String)
    ensures
        r@ == print_rep(d@),
{
    let cs = print_datum(d);
    chars_to_string(&cs)
}

/// Relies on std's `String::from_iter` over `char`: the string holds
/// exactly the given characters in order.
#[verifier::external_body]
pub fn chars_to_string(cs: &Vec<char>) -> (r: String)
    ensures
        r@ == cs@,
{
    cs.iter().collect()
}

} // verus!
