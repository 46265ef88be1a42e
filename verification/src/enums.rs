//! Generators over a flat enum declaration: the size constant, the fallible
//! index-to-variant conversion, and the sized restartable iterator.

use vstd::prelude::*;

use crate::GenError;
use crate::extract::{parse_flat_enum, spec_flat_enum};
use crate::text::str_eq;
use crate::token::Token;

verus! {

/// The texts of a vector of identifiers.
pub open spec fn variant_views(vs: Seq<String>) -> Seq<Seq<char>> {
    vs.map_values(|s: String| s@)
}

/// No two identifiers of `vs` read the same.
pub open spec fn distinct_idents(vs: Seq<Seq<char>>) -> bool {
    forall|j: int, k: int| 0 <= j < k < vs.len() ==> vs[j] != vs[k]
}

/// The position of the first identifier of `vs` that reads `id`.
pub open spec fn spec_index_of(vs: Seq<Seq<char>>, id: Seq<char>) -> Option<int>
    decreases vs.len(),
{
    if vs.len() == 0 {
        None
    } else if vs[0] == id {
        Some(0)
    } else {
        match spec_index_of(vs.skip(1), id) {
            Some(j) => Some(j + 1),
            None => None,
        }
    }
}

/// The first-position function finds a position that holds `id` and that
/// nothing before it holds, and fails only when no position holds `id`.
pub proof fn lemma_index_of_found(vs: Seq<Seq<char>>, id: Seq<char>)
    ensures
        match spec_index_of(vs, id) {
            Some(j) => 0 <= j < vs.len() && vs[j] == id && forall|k: int|
                0 <= k < j ==> vs[k] != id,
            None => forall|k: int| 0 <= k < vs.len() ==> vs[k] != id,
        },
    decreases vs.len(),
{
    if vs.len() == 0 {
    } else if vs[0] == id {
    } else {
        lemma_index_of_found(vs.skip(1), id);
        match spec_index_of(vs.skip(1), id) {
            Some(j) => {
                assert(vs.skip(1)[j] == vs[j + 1]);
                assert forall|k: int| 0 <= k < j + 1 implies vs[k] != id by {
                    if k >= 1 {
                        assert(vs.skip(1)[k - 1] == vs[k]);
                    }
                }
            },
            None => {
                assert forall|k: int| 0 <= k < vs.len() implies vs[k] != id by {
                    if k >= 1 {
                        assert(vs.skip(1)[k - 1] == vs[k]);
                    }
                }
            },
        }
    }
}

/// Round trip of the generated conversions: converting index `i` to its
/// variant and deriving that variant's declared index returns `i`, for any
/// list of distinct identifiers.
pub proof fn lemma_index_round_trip(vs: Seq<Seq<char>>, i: int)
    requires
        distinct_idents(vs),
        0 <= i < vs.len(),
    ensures
        spec_index_of(vs, vs[i]) == Some(i),
{
    lemma_index_of_found(vs, vs[i]);
    match spec_index_of(vs, vs[i]) {
        Some(j) => {
            if j < i {
                assert(vs[j] == vs[i]);
                assert(false);
            }
            if i < j {
                assert(vs[i] != vs[i]);
                assert(false);
            }
        },
        None => {
            assert(vs[i] != vs[i]);
            assert(false);
        },
    }
}

/// The generated size constant of an enum: its name and the exact number of
/// declared variants.
#[derive(Debug)]
pub struct SizeConst {
    pub name: String,
    pub size: usize,
}

/// The generated index-to-variant conversion of an enum: the ordered
/// variant list that assigns each variant its declared index.
#[derive(Debug)]
pub struct FromIndexDef {
    pub name: String,
    pub variants: Vec<String>,
}

impl FromIndexDef {
    /// The variant at declared index `i`; any index outside `[0, count)` is
    /// rejected with `OutOfRangeIndex`.
    pub fn from_index(&self, i: usize) -> (r: Result<&String, GenError>)
        ensures
            match r {
                Ok(s) => i < self.variants@.len() && s@ == variant_views(self.variants@)[i as int],
                Err(e) => i >= self.variants@.len() && e == GenError::OutOfRangeIndex,
            },
    {
        if i < self.variants.len() {
            Ok(&self.variants[i])
        } else {
            Err(GenError::OutOfRangeIndex)
        }
    }

    /// The declared index of the variant that reads `id`.
    pub fn index_of(&self, id: &str) -> (r: Option<usize>)
        ensures
            match r {
                Some(j) => spec_index_of(variant_views(self.variants@), id@) == Some(j as int),
                None => spec_index_of(variant_views(self.variants@), id@) is None,
            },
    {
        let ghost vs = variant_views(self.variants@);
        proof {
            lemma_index_of_found(vs, id@);
        }
        let mut j: usize = 0;
        while j < self.variants.len()
            invariant
                j <= vs.len(),
                vs == variant_views(self.variants@),
                forall|k: int| 0 <= k < j ==> vs[k] != id@,
                match spec_index_of(vs, id@) {
                    Some(m) => 0 <= m < vs.len() && vs[m] == id@ && forall|k: int|
                        0 <= k < m ==> vs[k] != id@,
                    None => forall|k: int| 0 <= k < vs.len() ==> vs[k] != id@,
                },
            decreases vs.len() - j,
        {
            if str_eq(self.variants[j].as_str(), id) {
                proof {
                    match spec_index_of(vs, id@) {
                        Some(m) => {
                            if m < j {
                                assert(vs[m] != id@);
                            } else if m > j {
                                assert(vs[j as int] != id@);
                            }
                        },
                        None => {
                            assert(vs[j as int] != id@);
                        },
                    }
                }
                return Some(j);
            }
            j += 1;
        }
        None
    }
}

/// The generated iterator definition of an enum: its name and the declared
/// variant order that a fresh iterator walks.
#[derive(Debug)]
pub struct IterDef {
    pub name: String,
    pub variants: Vec<String>,
}

impl IterDef {
    /// A fresh iterator over the declared variants, starting at the first.
    /// Constructing it again yields an independent, identically-ordered
    /// walk: the iterator is restartable, not resumable.
    pub fn iter(&self) -> (it: VariantIter<'_>)
        ensures
            it.variants == &self.variants,
            it.pos == 0,
            it.wf(),
    {
        VariantIter { variants: &self.variants, pos: 0 }
    }
}

/// A cursor over a declared variant list: yields the variants in
/// declaration order and reports an exact remaining length at every step.
#[derive(Debug)]
pub struct VariantIter<'a> {
    pub variants: &'a Vec<String>,
    pub pos: usize,
}

impl<'a> VariantIter<'a> {
    /// The cursor never runs past the end of the list.
    pub open spec fn wf(&self) -> bool {
        self.pos <= self.variants@.len()
    }

    /// Exactly how many variants are still to come.
    pub fn remaining(&self) -> (n: usize)
        requires
            self.wf(),
        ensures
            n == self.variants@.len() - self.pos,
    {
        self.variants.len() - self.pos
    }

    /// The next variant in declaration order; `None` exactly when every
    /// variant has been yielded, after which the cursor no longer moves.
    pub fn next(&mut self) -> (r: Option<&'a String>)
        requires
            old(self).wf(),
        ensures
            final(self).variants == old(self).variants,
            final(self).wf(),
            match r {
                Some(s) => {
                    &&& old(self).pos < old(self).variants@.len()
                    &&& s@ == variant_views(old(self).variants@)[old(self).pos as int]
                    &&& final(self).pos == old(self).pos + 1
                },
                None => {
                    &&& old(self).pos == old(self).variants@.len()
                    &&& final(self).pos == old(self).pos
                },
            },
    {
        if self.pos < self.variants.len() {
            let s = &self.variants[self.pos];
            self.pos = self.pos + 1;
            Some(s)
        } else {
            None
        }
    }
}

/// Builds the size constant of the flat enum declared in `toks`: the
/// constant equals the exact number of declared variant identifiers.
pub fn enum_size(toks: &Vec<Token>) -> (r: Result<SizeConst, GenError>)
    ensures
        match r {
            Ok(d) => spec_flat_enum(toks@) matches Ok(p) && p.0 == d.name@ && d.size == p.1.len(),
            Err(e) => spec_flat_enum(toks@) == Err::<(Seq<char>, Seq<Seq<char>>), _>(e),
        },
{
    let (name, variants) = parse_flat_enum(toks)?;
    Ok(SizeConst { name, size: variants.len() })
}

/// Builds the index-to-variant conversion of the flat enum declared in
/// `toks`, in declaration order.
pub fn enum_from_usize(toks: &Vec<Token>) -> (r: Result<FromIndexDef, GenError>)
    ensures
        match r {
            Ok(d) => spec_flat_enum(toks@) matches Ok(p) && p.0 == d.name@ && p.1 == variant_views(
                d.variants@,
            ),
            Err(e) => spec_flat_enum(toks@) == Err::<(Seq<char>, Seq<Seq<char>>), _>(e),
        },
{
    let (name, variants) = parse_flat_enum(toks)?;
    Ok(FromIndexDef { name, variants })
}

/// Builds the iterator definition of the flat enum declared in `toks`: a
/// fresh iterator walks the variants in declaration order.
pub fn enum_iter(toks: &Vec<Token>) -> (r: Result<IterDef, GenError>)
    ensures
        match r {
            Ok(d) => spec_flat_enum(toks@) matches Ok(p) && p.0 == d.name@ && p.1 == variant_views(
                d.variants@,
            ),
            Err(e) => spec_flat_enum(toks@) == Err::<(Seq<char>, Seq<Seq<char>>), _>(e),
        },
{
    let (name, variants) = parse_flat_enum(toks)?;
    Ok(IterDef { name, variants })
}

} // verus!
