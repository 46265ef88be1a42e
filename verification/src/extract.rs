//! Flat-enum extraction: locate the `enum` keyword in a token sequence,
//! capture the name behind it, and enumerate the identifier children of the
//! following group.

use vstd::prelude::*;

use crate::GenError;
use crate::text::str_eq;
use crate::token::{Cursor, Token, ident_views, idents_of};

verus! {

/// What scanning for the `enum` keyword from position `i` yields: the name
/// behind the first `enum` identifier and the position after it, or the
/// error of the scan.
pub open spec fn spec_enum_ident(toks: Seq<Token>, i: int) -> Result<(Seq<char>, int), GenError>
    decreases toks.len() - i,
        when 0 <= i <= toks.len()
{
    if i >= toks.len() {
        Err(GenError::MissingKeyword)
    } else if toks[i].is_ident_str("enum"@) {
        if i + 1 < toks.len() && toks[i + 1] is Ident {
            Ok((toks[i + 1]->Ident_0@, i + 2))
        } else {
            Err(GenError::UnexpectedToken)
        }
    } else {
        spec_enum_ident(toks, i + 1)
    }
}

/// The identifier children of a group token, or `MissingGroup` when the
/// token is not a group.
pub open spec fn spec_group_idents(tok: Token) -> Result<Seq<Seq<char>>, GenError> {
    match tok {
        Token::Group(_, children) => Ok(ident_views(children@)),
        _ => Err(GenError::MissingGroup),
    }
}

/// What extracting a whole flat enum declaration yields: the enum name and
/// its ordered variant list, or the first error of the scan.
pub open spec fn spec_flat_enum(toks: Seq<Token>) -> Result<
    (Seq<char>, Seq<Seq<char>>),
    GenError,
> {
    match spec_enum_ident(toks, 0) {
        Err(e) => Err(e),
        Ok((name, pos)) => if pos < toks.len() {
            match spec_group_idents(toks[pos]) {
                Ok(vs) => Ok((name, vs)),
                Err(e) => Err(e),
            }
        } else {
            Err(GenError::MissingGroup)
        },
    }
}

/// Scans `toks` from `start` for the `enum` keyword and returns the
/// identifier behind it together with the position after that identifier.
pub fn enum_ident(toks: &Vec<Token>, start: usize) -> (r: Result<(String, usize), GenError>)
    requires
        start <= toks@.len(),
    ensures
        match r {
            Ok((name, pos)) => spec_enum_ident(toks@, start as int) == Ok::<_, GenError>(
                (name@, pos as int),
            ) && pos <= toks@.len(),
            Err(e) => spec_enum_ident(toks@, start as int) == Err::<(Seq<char>, int), _>(e),
        },
{
    let mut i: usize = start;
    while i < toks.len()
        invariant
            start <= i <= toks@.len(),
            spec_enum_ident(toks@, start as int) == spec_enum_ident(toks@, i as int),
        decreases toks@.len() - i,
    {
        if let Token::Ident(s) = &toks[i] {
            if str_eq(s.as_str(), "enum") {
                if i + 1 < toks.len() {
                    if let Token::Ident(name) = &toks[i + 1] {
                        return Ok((name.clone(), i + 2));
                    }
                }
                return Err(GenError::UnexpectedToken);
            }
        }
        i += 1;
    }
    Err(GenError::MissingKeyword)
}

/// Extracts the name and the ordered variant list of a flat enum
/// declaration: everything before the `enum` keyword is scanned past, and
/// the group behind the name supplies the variants.
pub fn parse_flat_enum(toks: &Vec<Token>) -> (r: Result<(String, Vec<String>), GenError>)
    ensures
        match r {
            Ok((name, vs)) => spec_flat_enum(toks@) == Ok::<_, GenError>(
                (name@, vs@.map_values(|s: String| s@)),
            ),
            Err(e) => spec_flat_enum(toks@) == Err::<(Seq<char>, Seq<Seq<char>>), _>(e),
        },
{
    let (name, pos) = match enum_ident(toks, 0) {
        Ok(p) => p,
        Err(e) => {
            return Err(e);
        },
    };
    let mut cur = Cursor { toks, pos };
    match cur.descend_group() {
        Ok(children) => Ok((name, idents_of(children))),
        Err(e) => Err(e),
    }
}

} // verus!
