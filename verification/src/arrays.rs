//! Array generators: the fixed-size string array whose entries are a
//! prefix followed by the entry's position, and the triangle-fan index
//! table used to triangulate meshes.

use vstd::prelude::*;

use crate::GenError;
use crate::text::{dec_str, usize_to_string};
use crate::token::Token;

verus! {

/// Whether `s` is a nonempty run of decimal digits.
pub open spec fn is_dec(s: Seq<char>) -> bool {
    &&& s.len() >= 1
    &&& forall|i: int| 0 <= i < s.len() ==> 48 <= (#[trigger] s[i]) as int <= 57
}

/// The value of a run of decimal digits, most significant first.
pub open spec fn dec_val(s: Seq<char>) -> int
    decreases s.len(),
{
    if s.len() == 0 {
        0
    } else {
        dec_val(s.drop_last()) * 10 + (s.last() as int - 48)
    }
}

/// Parses `s` as a decimal numeral that fits in sixteen bits.
pub fn parse_u16(s: &str) -> (r: Option<u16>)
    ensures
        match r {
            Some(v) => is_dec(s@) && dec_val(s@) <= 65535 && v == dec_val(s@),
            None => !(is_dec(s@) && dec_val(s@) <= 65535),
        },
{
    let n = s.unicode_len();
    if n == 0 {
        return None;
    }
    let mut acc: u32 = 0;
    let mut i: usize = 0;
    while i < n
        invariant
            i <= n,
            n == s@.len(),
            forall|j: int| 0 <= j < i ==> 48 <= (#[trigger] s@[j]) as int <= 57,
            (acc < 100000 && acc == dec_val(s@.take(i as int))) || (acc == 100000 && dec_val(
                s@.take(i as int),
            ) >= 100000),
        decreases n - i,
    {
        let c = s.get_char(i);
        let u = c as u32;
        if u < 48 || u > 57 {
            proof {
                assert(!(48 <= s@[i as int] as int <= 57));
                assert(!is_dec(s@));
            }
            return None;
        }
        let ghost prev = s@.take(i as int);
        proof {
            assert(s@.take(i + 1).drop_last() =~= prev);
            assert(s@.take(i + 1).last() == s@[i as int]);
        }
        let d: u32 = u - 48;
        let step: u32 = acc * 10 + d;
        if step >= 100000 {
            acc = 100000;
        } else {
            acc = step;
        }
        i += 1;
    }
    proof {
        assert(s@.take(n as int) =~= s@);
    }
    if acc <= 65535 {
        Some(acc as u16)
    } else {
        None
    }
}

/// The generated fixed-size string array: its destination name and its
/// entries, entry `i` being the prefix followed by `i` in decimal.
#[derive(Debug)]
pub struct StrArrayDef {
    pub name: String,
    pub prefix: String,
    pub strings: Vec<String>,
}

/// What parsing the string-array request yields: the destination name, the
/// entry count, and the optional prefix (empty when absent). The request
/// is a name, a comma, a sixteen-bit count, and optionally one more comma
/// and a prefix identifier, with nothing behind them.
pub open spec fn spec_str_array(toks: Seq<Token>) -> Result<
    (Seq<char>, int, Seq<char>),
    GenError,
> {
    if toks.len() >= 3 && toks[0] is Ident && toks[1].is_punct(',') && toks[2] is Lit && is_dec(
        toks[2]->Lit_0@,
    ) && dec_val(toks[2]->Lit_0@) <= 65535 {
        if toks.len() == 3 {
            Ok((toks[0]->Ident_0@, dec_val(toks[2]->Lit_0@), Seq::empty()))
        } else if toks.len() == 5 && toks[3].is_punct(',') && toks[4] is Ident {
            Ok((toks[0]->Ident_0@, dec_val(toks[2]->Lit_0@), toks[4]->Ident_0@))
        } else {
            Err(GenError::UnexpectedToken)
        }
    } else {
        Err(GenError::UnexpectedToken)
    }
}

/// Builds the fixed-size string array named in `toks`: one entry per
/// position, each the prefix followed by the position in decimal, no gaps.
pub fn str_array(toks: &Vec<Token>) -> (r: Result<StrArrayDef, GenError>)
    ensures
        match r {
            Ok(d) => spec_str_array(toks@) matches Ok(p) && d.name@ == p.0 && d.prefix@ == p.2
                && d.strings@.len() == p.1 && forall|k: int|
                0 <= k < p.1 ==> (#[trigger] d.strings@[k])@ == p.2 + dec_str(k as nat),
            Err(e) => spec_str_array(toks@) == Err::<(Seq<char>, int, Seq<char>), _>(e),
        },
{
    if toks.len() < 3 {
        return Err(GenError::UnexpectedToken);
    }
    let name = match &toks[0] {
        Token::Ident(s) => s.clone(),
        _ => {
            return Err(GenError::UnexpectedToken);
        },
    };
    match &toks[1] {
        Token::Punct(c) if *c == ',' => (),
        _ => {
            return Err(GenError::UnexpectedToken);
        },
    }
    let amount: u16 = match &toks[2] {
        Token::Lit(s) => match parse_u16(s.as_str()) {
            Some(v) => v,
            None => {
                return Err(GenError::UnexpectedToken);
            },
        },
        _ => {
            return Err(GenError::UnexpectedToken);
        },
    };
    let prefix: String = if toks.len() == 3 {
        String::new()
    } else {
        if toks.len() != 5 {
            return Err(GenError::UnexpectedToken);
        }
        match &toks[3] {
            Token::Punct(c) if *c == ',' => (),
            _ => {
                return Err(GenError::UnexpectedToken);
            },
        }
        match &toks[4] {
            Token::Ident(s) => s.clone(),
            _ => {
                return Err(GenError::UnexpectedToken);
            },
        }
    };
    let ghost pv = prefix@;
    let ghost count = dec_val(toks@[2]->Lit_0@);
    let mut strings: Vec<String> = Vec::new();
    let mut i: usize = 0;
    while i < amount as usize
        invariant
            i <= amount as usize,
            pv == prefix@,
            count == amount as int,
            strings@.len() == i,
            forall|k: int| 0 <= k < i ==> (#[trigger] strings@[k])@ == pv + dec_str(k as nat),
        decreases amount as usize - i,
    {
        let num = usize_to_string(i);
        let entry = prefix.clone().concat(num.as_str());
        strings.push(entry);
        i += 1;
    }
    Ok(StrArrayDef { name, prefix, strings })
}

/// The generated mesh triangulation table: its destination name, the
/// declared triangle budget, and the fan indexes, three per triangle.
#[derive(Debug)]
pub struct MeshIndexesDef {
    pub name: String,
    pub size: u16,
    pub indexes: Vec<u16>,
}

/// What parsing the mesh-index request yields: the destination name and
/// the triangle count. The request is a name, a comma and a sixteen-bit
/// count small enough that every fan index still fits, with nothing
/// behind them.
pub open spec fn spec_meshes_indexes(toks: Seq<Token>) -> Result<(Seq<char>, int), GenError> {
    if toks.len() == 3 && toks[0] is Ident && toks[1].is_punct(',') && toks[2] is Lit && is_dec(
        toks[2]->Lit_0@,
    ) && dec_val(toks[2]->Lit_0@) < 65535 {
        Ok((toks[0]->Ident_0@, dec_val(toks[2]->Lit_0@)))
    } else {
        Err(GenError::UnexpectedToken)
    }
}

/// Builds the triangle-fan index table named in `toks`: one triple
/// `0, i, i + 1` per triangle `i` in `1 ..= size`.
pub fn meshes_indexes(toks: &Vec<Token>) -> (r: Result<MeshIndexesDef, GenError>)
    ensures
        match r {
            Ok(d) => spec_meshes_indexes(toks@) matches Ok(p) && d.name@ == p.0 && d.size == p.1
                && d.indexes@.len() == 3 * p.1 && forall|t: int|
                0 <= t < p.1 ==> #[trigger] d.indexes@[3 * t] == 0 && d.indexes@[3 * t + 1] == t + 1
                    && d.indexes@[3 * t + 2] == t + 2,
            Err(e) => spec_meshes_indexes(toks@) == Err::<(Seq<char>, int), _>(e),
        },
{
    if toks.len() != 3 {
        return Err(GenError::UnexpectedToken);
    }
    let name = match &toks[0] {
        Token::Ident(s) => s.clone(),
        _ => {
            return Err(GenError::UnexpectedToken);
        },
    };
    match &toks[1] {
        Token::Punct(c) if *c == ',' => (),
        _ => {
            return Err(GenError::UnexpectedToken);
        },
    }
    let size: u16 = match &toks[2] {
        Token::Lit(s) => match parse_u16(s.as_str()) {
            Some(v) if v < 65535 => v,
            _ => {
                return Err(GenError::UnexpectedToken);
            },
        },
        _ => {
            return Err(GenError::UnexpectedToken);
        },
    };
    let mut indexes: Vec<u16> = Vec::new();
    let mut t: u16 = 0;
    while t < size
        invariant
            t <= size,
            size < 65535,
            indexes@.len() == 3 * t,
            forall|m: int|
                0 <= m < t ==> #[trigger] indexes@[3 * m] == 0 && indexes@[3 * m + 1] == m + 1
                    && indexes@[3 * m + 2] == m + 2,
        decreases size - t,
    {
        indexes.push(0);
        indexes.push(t + 1);
        indexes.push(t + 2);
        t += 1;
    }
    Ok(MeshIndexesDef { name, size, indexes })
}

} // verus!
