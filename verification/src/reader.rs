use crate::datum::{str_chars, Datum};
use crate::error::RuntimeError;
use crate::numtext::parse_i64;
use crate::vm::Machine;
use std::rc::Rc;
use vstd::prelude::*;

verus! {

/// Whitespace characters of the surface syntax.
fn is_ws(c: char) -> bool {
    c == ' ' || c == '\t' || c == '\n' || c == '\r'
}

/// A character that ends an atom.
fn is_delim(c: char) -> bool {
    is_ws(c) || c == '(' || c == ')' || c == '"' || c == ';'
}

/// Skips whitespace and `;` comments.
fn skip_ws(cs: &Vec<char>, pos: usize) -> (r: usize)
    requires
        pos <= cs@.len(),
    ensures
        pos <= r <= cs@.len(),
    decreases cs@.len() - pos,
{
    if pos >= cs.len() {
        return pos;
    }
    let c = cs[pos];
    if is_ws(c) {
        return skip_ws(cs, pos + 1);
    }
    if c == ';' {
        let mut p = pos;
        while p < cs.len() && cs[p] != '\n'
            invariant
                pos <= p <= cs@.len(),
            decreases cs@.len() - p,
        {
            p = p + 1;
        }
        return skip_ws(cs, p);
    }
    pos
}

/// Parses one datum starting at `pos`; returns it with the position after
/// it.  The reader consumes at least one character and never touches the
/// environments or tables.
pub fn parse_datum(mach: &mut Machine, cs: &Vec<char>, pos: usize) -> (r: Result<
    (Datum, usize),
    RuntimeError,
>)
    requires
        pos < cs@.len(),
    ensures
        final(mach).envs == old(mach).envs,
        final(mach).tables == old(mach).tables,
        r matches Ok(p) ==> pos < p.1 <= cs@.len(),
    decreases cs@.len() - pos, 0int,
{
    proof {
        assert(vstd::std_specs::vec::spec_vec_len(cs) == cs@.len());
    }
    let c = cs[pos];
    if c == '(' {
        parse_list(mach, cs, pos + 1, false)
    } else if c == '\'' {
        if pos + 1 >= cs.len() {
            return Err(RuntimeError::Syntax);
        }
        let p1 = skip_ws(cs, pos + 1);
        if p1 >= cs.len() || p1 <= pos {
            return Err(RuntimeError::Syntax);
        }
        let (inner, p2) = parse_datum(mach, cs, p1)?;
        let quoted = Datum::pair(
            Datum::Symbol(Rc::new(str_chars("quote"))),
            Datum::pair(inner, Datum::EmptyList),
        );
        Ok((quoted, p2))
    } else if c == '#' {
        if pos + 1 >= cs.len() {
            return Err(RuntimeError::Syntax);
        }
        let c2 = cs[pos + 1];
        if c2 == 't' {
            Ok((Datum::Boolean(true), pos + 2))
        } else if c2 == 'f' {
            Ok((Datum::Boolean(false), pos + 2))
        } else if c2 == '\\' {
            if pos + 2 >= cs.len() {
                return Err(RuntimeError::Syntax);
            }
            Ok((Datum::Character(cs[pos + 2]), pos + 3))
        } else if c2 == '(' {
            let (elems, p2) = parse_list(mach, cs, pos + 2, true)?;
            let id = mach.fresh_id();
            Ok((Datum::Vector(id, Rc::new(elems)), p2))
        } else {
            Err(RuntimeError::Syntax)
        }
    } else if c == '"' {
        let mut body: Vec<char> = Vec::new();
        let mut p = pos + 1;
        while p < cs.len() && cs[p] != '"'
            invariant
                pos < p <= cs@.len(),
            decreases cs@.len() - p,
        {
            let ch = cs[p];
            if ch == '\\' {
                if p + 1 >= cs.len() {
                    return Err(RuntimeError::Syntax);
                }
                let esc = cs[p + 1];
                if esc == 'n' {
                    body.push('\n');
                } else if esc == 't' {
                    body.push('\t');
                } else {
                    body.push(esc);
                }
                p = p + 2;
            } else {
                body.push(ch);
                p = p + 1;
            }
        }
        if p >= cs.len() {
            return Err(RuntimeError::Syntax);
        }
        Ok((Datum::Str(Rc::new(body)), p + 1))
    } else if c == ')' {
        Err(RuntimeError::Syntax)
    } else {
        // An atom: a number or a symbol.
        let mut p = pos;
        let mut token: Vec<char> = Vec::new();
        while p < cs.len() && !is_delim(cs[p])
            invariant
                pos <= p <= cs@.len(),
                token@.len() == p - pos,
            decreases cs@.len() - p,
        {
            token.push(cs[p]);
            p = p + 1;
        }
        if token.len() == 0 {
            return Err(RuntimeError::Syntax);
        }
        match parse_i64(token.as_slice()) {
            Some(n) => Ok((Datum::Number(n), p)),
            None => Ok((Datum::Symbol(Rc::new(token)), p)),
        }
    }
}

/// Parses the elements of a list after its opening bracket, `.`-dotted
/// tails included.
fn parse_list(mach: &mut Machine, cs: &Vec<char>, pos: usize, vector: bool) -> (r: Result<
    (Datum, usize),
    RuntimeError,
>)
    requires
        pos <= cs@.len(),
    ensures
        final(mach).envs == old(mach).envs,
        final(mach).tables == old(mach).tables,
        r matches Ok(p) ==> pos < p.1 <= cs@.len(),
    decreases cs@.len() - pos, 1int,
{
    let mut elems: Vec<Datum> = Vec::new();
    let mut tail: Option<Datum> = None;
    let mut p = skip_ws(cs, pos);
    while p < cs.len() && cs[p] != ')'
        invariant
            pos <= p <= cs@.len(),
            mach.envs == old(mach).envs,
            mach.tables == old(mach).tables,
        decreases cs@.len() - p,
    {
        if cs[p] == '.' && tail.is_none() && elems.len() > 0 && (p + 1 >= cs.len() || is_delim(
            cs[p + 1],
        )) {
            let p1 = skip_ws(cs, p + 1);
            if p1 >= cs.len() {
                return Err(RuntimeError::Syntax);
            }
            let (d, p2) = parse_datum(mach, cs, p1)?;
            tail = Some(d);
            p = skip_ws(cs, p2);
        } else {
            if tail.is_some() {
                return Err(RuntimeError::Syntax);
            }
            let (d, p2) = parse_datum(mach, cs, p)?;
            elems.push(d);
            p = skip_ws(cs, p2);
        }
    }
    if p >= cs.len() {
        return Err(RuntimeError::Syntax);
    }
    // cs[p] == ')'
    match tail {
        Some(t) => {
            if vector {
                return Err(RuntimeError::Syntax);
            }
            let mut all = elems;
            all.push(t);
            Ok((Datum::improper_list(all), p + 1))
        },
        None => Ok((Datum::list(elems), p + 1)),
    }
}

/// Reads every top-level datum of the source text.
pub fn read_all(mach: &mut Machine, src: &str) -> (r: Result<Vec<Datum>, RuntimeError>)
    ensures
        final(mach).envs == old(mach).envs,
        final(mach).tables == old(mach).tables,
{
    let cs = str_chars(src);
    let mut out: Vec<Datum> = Vec::new();
    let mut p = skip_ws(&cs, 0);
    while p < cs.len()
        invariant
            p <= cs@.len(),
            mach.envs == old(mach).envs,
            mach.tables == old(mach).tables,
        decreases cs@.len() - p,
    {
        let (d, p2) = parse_datum(mach, &cs, p)?;
        out.push(d);
        p = skip_ws(&cs, p2);
    }
    Ok(out)
}

} // verus!
