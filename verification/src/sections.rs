//! Sectioned-mode extraction: `keyword : value, alias|value, ...` repeated
//! for a fixed, ordered set of section keywords, with aliased entries that
//! share one slot of the ordered variant list.

use vstd::prelude::*;

use crate::GenError;
use crate::text::str_eq;
use crate::token::Token;

verus! {

/// The model of one slot of a variant list: a primary identifier and the
/// aliases merged into the same slot.
pub ghost struct SlotView {
    pub primary: Seq<char>,
    pub aliases: Seq<Seq<char>>,
}

/// One slot of a variant list: a primary identifier, and the aliases that
/// share its position for indexing and height assignment while keeping
/// presentation strings of their own.
#[derive(Debug)]
pub struct Slot {
    pub primary: String,
    pub aliases: Vec<String>,
}

impl View for Slot {
    type V = SlotView;

    open spec fn view(&self) -> SlotView {
        SlotView {
            primary: self.primary@,
            aliases: self.aliases@.map_values(|a: String| a@),
        }
    }
}

/// The models of a vector of slots.
pub open spec fn slot_views(s: Seq<Slot>) -> Seq<SlotView> {
    s.map_values(|x: Slot| x@)
}

/// Whether `v` reads as one of the fixed section keywords.
pub open spec fn is_section_kw(v: Seq<char>) -> bool {
    ||| v == "clear"@
    ||| v == "extensions"@
    ||| v == "grid"@
    ||| v == "entities"@
    ||| v == "ui"@
}

/// Whether `s` reads as one of the fixed section keywords.
pub fn ident_is_kw(s: &str) -> (r: bool)
    ensures
        r == is_section_kw(s@),
{
    str_eq(s, "clear") || str_eq(s, "extensions") || str_eq(s, "grid") || str_eq(s, "entities")
        || str_eq(s, "ui")
}

/// The text of an optional terminating keyword.
pub open spec fn opt_view(end: Option<&str>) -> Option<Seq<char>> {
    match end {
        Some(s) => Some(s@),
        None => None,
    }
}

/// What consuming a comma-separated identifier list from position `i`
/// yields: the accumulated slots and the position behind the terminating
/// keyword and its `:` marker (or the end of the input when no terminator
/// is expected). A keyword other than the expected terminator, a stray
/// punctuation mark, an alias marker without a preceding slot or without a
/// following identifier, and a non-identifier token are all rejected; a
/// non-final section that runs out of input loses its required keyword.
pub open spec fn spec_slots(
    toks: Seq<Token>,
    i: int,
    end: Option<Seq<char>>,
    acc: Seq<SlotView>,
) -> Result<(Seq<SlotView>, int), GenError>
    decreases toks.len() - i,
        when 0 <= i <= toks.len()
{
    if i == toks.len() {
        match end {
            None => Ok((acc, i)),
            Some(_) => Err(GenError::MissingKeyword),
        }
    } else {
        match toks[i] {
            Token::Punct(p) => if p == ',' {
                spec_slots(toks, i + 1, end, acc)
            } else if p == '|' {
                if acc.len() >= 1 && i + 1 < toks.len() && toks[i + 1] is Ident && toks[i
                    + 1]->Ident_0@.len() >= 1 {
                    spec_slots(
                        toks,
                        i + 2,
                        end,
                        acc.update(
                            acc.len() - 1,
                            SlotView {
                                primary: acc.last().primary,
                                aliases: acc.last().aliases.push(toks[i + 1]->Ident_0@),
                            },
                        ),
                    )
                } else {
                    Err(GenError::UnexpectedToken)
                }
            } else {
                Err(GenError::UnexpectedToken)
            },
            Token::Ident(s) => if is_section_kw(s@) {
                if end == Some(s@) {
                    if i + 1 < toks.len() && toks[i + 1].is_punct(':') {
                        Ok((acc, i + 2))
                    } else {
                        Err(GenError::UnexpectedToken)
                    }
                } else {
                    Err(GenError::UnexpectedToken)
                }
            } else if s@.len() >= 1 {
                spec_slots(
                    toks,
                    i + 1,
                    end,
                    acc.push(SlotView { primary: s@, aliases: Seq::empty() }),
                )
            } else {
                Err(GenError::UnexpectedToken)
            },
            _ => Err(GenError::UnexpectedToken),
        }
    }
}

/// Consumes a comma-separated identifier list with aliases into `acc`.
pub fn extract_slots(toks: &Vec<Token>, i: usize, end: Option<&str>, acc: &mut Vec<Slot>) -> (r:
    Result<usize, GenError>)
    requires
        i <= toks@.len(),
    ensures
        match r {
            Ok(pos) => spec_slots(toks@, i as int, opt_view(end), slot_views(old(acc)@))
                == Ok::<_, GenError>((slot_views(final(acc)@), pos as int)) && pos <= toks@.len(),
            Err(e) => spec_slots(toks@, i as int, opt_view(end), slot_views(old(acc)@)) == Err::<
                (Seq<SlotView>, int),
                _,
            >(e),
        },
    decreases toks@.len() - i,
{
    if i == toks.len() {
        return match end {
            None => Ok(i),
            Some(_) => Err(GenError::MissingKeyword),
        };
    }
    match &toks[i] {
        Token::Punct(p) => {
            if *p == ',' {
                extract_slots(toks, i + 1, end, acc)
            } else if *p == '|' {
                if acc.len() == 0 || i + 1 >= toks.len() {
                    return Err(GenError::UnexpectedToken);
                }
                if let Token::Ident(a) = &toks[i + 1] {
                    if a.as_str().unicode_len() >= 1 {
                        let ghost before = slot_views(acc@);
                        let mut slot = acc.pop().unwrap();
                        slot.aliases.push(a.clone());
                        acc.push(slot);
                        proof {
                            assert(slot_views(acc@) =~= before.update(
                                before.len() - 1,
                                SlotView {
                                    primary: before.last().primary,
                                    aliases: before.last().aliases.push(toks@[i + 1]->Ident_0@),
                                },
                            )) by {
                                assert(slot@.aliases =~= before.last().aliases.push(
                                    toks@[i + 1]->Ident_0@,
                                ));
                            }
                        }
                        return extract_slots(toks, i + 2, end, acc);
                    }
                }
                Err(GenError::UnexpectedToken)
            } else {
                Err(GenError::UnexpectedToken)
            }
        },
        Token::Ident(s) => {
            if ident_is_kw(s.as_str()) {
                let matches_end = match end {
                    Some(e) => str_eq(s.as_str(), e),
                    None => false,
                };
                if matches_end {
                    if i + 1 < toks.len() {
                        if let Token::Punct(c) = &toks[i + 1] {
                            if *c == ':' {
                                return Ok(i + 2);
                            }
                        }
                    }
                    Err(GenError::UnexpectedToken)
                } else {
                    Err(GenError::UnexpectedToken)
                }
            } else if s.as_str().unicode_len() >= 1 {
                let ghost before = slot_views(acc@);
                let new_slot = Slot { primary: s.clone(), aliases: Vec::new() };
                proof {
                    assert(new_slot@.aliases =~= Seq::<Seq<char>>::empty());
                }
                acc.push(new_slot);
                proof {
                    assert(slot_views(acc@) =~= before.push(
                        SlotView { primary: s@, aliases: Seq::empty() },
                    ));
                }
                extract_slots(toks, i + 1, end, acc)
            } else {
                Err(GenError::UnexpectedToken)
            }
        },
        _ => Err(GenError::UnexpectedToken),
    }
}

/// Every primary and alias text of `s` is nonempty.
pub open spec fn slots_wf(s: Seq<SlotView>) -> bool {
    &&& forall|i: int| 0 <= i < s.len() ==> (#[trigger] s[i]).primary.len() >= 1
    &&& forall|i: int, j: int|
        0 <= i < s.len() && 0 <= j < s[i].aliases.len() ==> (#[trigger] s[i].aliases[j]).len() >= 1
}

/// The total number of identifiers of `s`, aliases included.
pub open spec fn slots_ident_count(s: Seq<SlotView>) -> int
    decreases s.len(),
{
    if s.len() == 0 {
        0
    } else {
        slots_ident_count(s.drop_last()) + 1 + s.last().aliases.len()
    }
}

/// A successful list parse only ever extends the accumulator with nonempty
/// identifier texts, and adds at most one slot per consumed token.
pub proof fn lemma_spec_slots_ok(toks: Seq<Token>, i: int, end: Option<Seq<char>>, acc: Seq<
    SlotView,
>)
    requires
        0 <= i <= toks.len(),
        slots_wf(acc),
        spec_slots(toks, i, end, acc) is Ok,
    ensures
        slots_wf(spec_slots(toks, i, end, acc)->Ok_0.0),
        spec_slots(toks, i, end, acc)->Ok_0.0.len() <= acc.len() + toks.len() - i,
        i <= spec_slots(toks, i, end, acc)->Ok_0.1 <= toks.len(),
    decreases toks.len() - i,
{
    if i == toks.len() {
    } else {
        match toks[i] {
            Token::Punct(p) => {
                if p == ',' {
                    lemma_spec_slots_ok(toks, i + 1, end, acc);
                } else if p == '|' {
                    let updated = acc.update(
                        acc.len() - 1,
                        SlotView {
                            primary: acc.last().primary,
                            aliases: acc.last().aliases.push(toks[i + 1]->Ident_0@),
                        },
                    );
                    assert(slots_wf(updated));
                    lemma_spec_slots_ok(toks, i + 2, end, updated);
                }
            },
            Token::Ident(s) => {
                if is_section_kw(s@) {
                } else {
                    let pushed = acc.push(SlotView { primary: s@, aliases: Seq::empty() });
                    assert(slots_wf(pushed));
                    lemma_spec_slots_ok(toks, i + 1, end, pushed);
                }
            },
            _ => {},
        }
    }
}

/// Inside a section body, a section keyword that is not the expected
/// terminator is rejected at once with `UnexpectedToken`: sections cannot
/// appear out of their required order.
pub proof fn lemma_out_of_order_keyword(
    toks: Seq<Token>,
    i: int,
    end: Option<Seq<char>>,
    acc: Seq<SlotView>,
)
    requires
        0 <= i < toks.len(),
        toks[i] matches Token::Ident(s) && is_section_kw(s@),
        end != Some(toks[i]->Ident_0@),
    ensures
        spec_slots(toks, i, end, acc) == Err::<(Seq<SlotView>, int), _>(GenError::UnexpectedToken),
{
}

/// What expecting the section keyword `kw` followed by its `:` marker at
/// position `i` yields: the position behind the marker.
pub open spec fn spec_expect_kw(toks: Seq<Token>, i: int, kw: Seq<char>) -> Result<int, GenError> {
    if i >= toks.len() {
        Err(GenError::MissingKeyword)
    } else if toks[i].is_ident_str(kw) {
        if i + 1 < toks.len() && toks[i + 1].is_punct(':') {
            Ok(i + 2)
        } else {
            Err(GenError::UnexpectedToken)
        }
    } else {
        Err(GenError::UnexpectedToken)
    }
}

/// What expecting one plain variant identifier at position `i` yields: its
/// text and the position behind it.
pub open spec fn spec_expect_ident(toks: Seq<Token>, i: int) -> Result<(Seq<char>, int), GenError> {
    if i < toks.len() && toks[i] is Ident && !is_section_kw(toks[i]->Ident_0@)
        && toks[i]->Ident_0@.len() >= 1 {
        Ok((toks[i]->Ident_0@, i + 1))
    } else {
        Err(GenError::UnexpectedToken)
    }
}

/// What expecting a comma at position `i` yields: the position behind it.
pub open spec fn spec_expect_comma(toks: Seq<Token>, i: int) -> Result<int, GenError> {
    if i < toks.len() && toks[i].is_punct(',') {
        Ok(i + 1)
    } else {
        Err(GenError::UnexpectedToken)
    }
}

/// The model of a full sectioned declaration.
pub ghost struct ColorSectionsView {
    pub clear: Seq<char>,
    pub extensions: Seq<char>,
    pub grid: Seq<SlotView>,
    pub entities: Seq<SlotView>,
    pub ui: Seq<SlotView>,
}

/// A full sectioned declaration: the single clear and extensions variants,
/// and the grid, entities and ui variant lists, in declaration order.
#[derive(Debug)]
pub struct ColorSections {
    pub clear: String,
    pub extensions: String,
    pub grid: Vec<Slot>,
    pub entities: Vec<Slot>,
    pub ui: Vec<Slot>,
}

impl View for ColorSections {
    type V = ColorSectionsView;

    open spec fn view(&self) -> ColorSectionsView {
        ColorSectionsView {
            clear: self.clear@,
            extensions: self.extensions@,
            grid: slot_views(self.grid@),
            entities: slot_views(self.entities@),
            ui: slot_views(self.ui@),
        }
    }
}

/// What parsing a full sectioned declaration yields: the five sections in
/// their fixed required order, or the error of the first step that failed.
pub open spec fn spec_color_sections(toks: Seq<Token>) -> Result<ColorSectionsView, GenError> {
    match spec_expect_kw(toks, 0, "clear"@) {
        Err(e) => Err(e),
        Ok(i1) => match spec_expect_ident(toks, i1) {
            Err(e) => Err(e),
            Ok((clear, i2)) => match spec_expect_comma(toks, i2) {
                Err(e) => Err(e),
                Ok(i3) => match spec_expect_kw(toks, i3, "extensions"@) {
                    Err(e) => Err(e),
                    Ok(i4) => match spec_expect_ident(toks, i4) {
                        Err(e) => Err(e),
                        Ok((extensions, i5)) => match spec_expect_comma(toks, i5) {
                            Err(e) => Err(e),
                            Ok(i6) => match spec_expect_kw(toks, i6, "grid"@) {
                                Err(e) => Err(e),
                                Ok(i7) => match spec_slots(
                                    toks,
                                    i7,
                                    Some("entities"@),
                                    Seq::empty(),
                                ) {
                                    Err(e) => Err(e),
                                    Ok((grid, i8)) => match spec_slots(
                                        toks,
                                        i8,
                                        Some("ui"@),
                                        Seq::empty(),
                                    ) {
                                        Err(e) => Err(e),
                                        Ok((entities, i9)) => match spec_slots(
                                            toks,
                                            i9,
                                            None,
                                            Seq::empty(),
                                        ) {
                                            Err(e) => Err(e),
                                            Ok((ui, _)) => Ok(
                                                ColorSectionsView {
                                                    clear,
                                                    extensions,
                                                    grid,
                                                    entities,
                                                    ui,
                                                },
                                            ),
                                        },
                                    },
                                },
                            },
                        },
                    },
                },
            },
        },
    }
}

/// Expects the section keyword `kw` and its `:` marker at position `i`.
fn expect_kw(toks: &Vec<Token>, i: usize, kw: &str) -> (r: Result<usize, GenError>)
    requires
        i <= toks@.len(),
    ensures
        match r {
            Ok(pos) => spec_expect_kw(toks@, i as int, kw@) == Ok::<_, GenError>(pos as int) && pos
                <= toks@.len(),
            Err(e) => spec_expect_kw(toks@, i as int, kw@) == Err::<int, _>(e),
        },
{
    if i >= toks.len() {
        return Err(GenError::MissingKeyword);
    }
    match &toks[i] {
        Token::Ident(s) if str_eq(s.as_str(), kw) => {
            if i + 1 < toks.len() {
                if let Token::Punct(c) = &toks[i + 1] {
                    if *c == ':' {
                        return Ok(i + 2);
                    }
                }
            }
            Err(GenError::UnexpectedToken)
        },
        _ => Err(GenError::UnexpectedToken),
    }
}

/// Expects one plain variant identifier at position `i`.
fn expect_ident(toks: &Vec<Token>, i: usize) -> (r: Result<(String, usize), GenError>)
    requires
        i <= toks@.len(),
    ensures
        match r {
            Ok((id, pos)) => spec_expect_ident(toks@, i as int) == Ok::<_, GenError>(
                (id@, pos as int),
            ) && pos <= toks@.len(),
            Err(e) => spec_expect_ident(toks@, i as int) == Err::<(Seq<char>, int), _>(e),
        },
{
    if i >= toks.len() {
        return Err(GenError::UnexpectedToken);
    }
    match &toks[i] {
        Token::Ident(s) => {
            if !ident_is_kw(s.as_str()) && s.as_str().unicode_len() >= 1 {
                Ok((s.clone(), i + 1))
            } else {
                Err(GenError::UnexpectedToken)
            }
        },
        _ => Err(GenError::UnexpectedToken),
    }
}

/// Expects a comma at position `i`.
fn expect_comma(toks: &Vec<Token>, i: usize) -> (r: Result<usize, GenError>)
    requires
        i <= toks@.len(),
    ensures
        match r {
            Ok(pos) => spec_expect_comma(toks@, i as int) == Ok::<_, GenError>(pos as int) && pos
                <= toks@.len(),
            Err(e) => spec_expect_comma(toks@, i as int) == Err::<int, _>(e),
        },
{
    if i < toks.len() {
        if let Token::Punct(c) = &toks[i] {
            if *c == ',' {
                return Ok(i + 1);
            }
        }
    }
    Err(GenError::UnexpectedToken)
}

/// A sectioned declaration that opens with any section keyword other than
/// the first required one is rejected with `UnexpectedToken` before any
/// output is produced.
pub proof fn lemma_out_of_order_start(toks: Seq<Token>)
    requires
        toks.len() > 0,
        toks[0] matches Token::Ident(s) && is_section_kw(s@),
        toks[0]->Ident_0@ != "clear"@,
    ensures
        spec_color_sections(toks) == Err::<ColorSectionsView, _>(GenError::UnexpectedToken),
{
}

/// Parses a full sectioned declaration: the sections must appear in their
/// fixed required order, and a keyword met out of that order is rejected
/// before any output is produced.
pub fn parse_color_sections(toks: &Vec<Token>) -> (r: Result<ColorSections, GenError>)
    ensures
        match r {
            Ok(cs) => spec_color_sections(toks@) == Ok::<_, GenError>(cs@),
            Err(e) => spec_color_sections(toks@) == Err::<ColorSectionsView, _>(e),
        },
{
    let i1 = expect_kw(toks, 0, "clear")?;
    let (clear, i2) = expect_ident(toks, i1)?;
    let i3 = expect_comma(toks, i2)?;
    let i4 = expect_kw(toks, i3, "extensions")?;
    let (extensions, i5) = expect_ident(toks, i4)?;
    let i6 = expect_comma(toks, i5)?;
    let i7 = expect_kw(toks, i6, "grid")?;
    let mut grid: Vec<Slot> = Vec::new();
    proof {
        assert(slot_views(grid@) =~= Seq::<SlotView>::empty());
    }
    let i8 = extract_slots(toks, i7, Some("entities"), &mut grid)?;
    let ghost gv = slot_views(grid@);
    let mut entities: Vec<Slot> = Vec::new();
    proof {
        assert(slot_views(entities@) =~= Seq::<SlotView>::empty());
    }
    let i9 = extract_slots(toks, i8, Some("ui"), &mut entities)?;
    let ghost ev = slot_views(entities@);
    let mut ui: Vec<Slot> = Vec::new();
    proof {
        assert(slot_views(ui@) =~= Seq::<SlotView>::empty());
    }
    let _i10 = extract_slots(toks, i9, None, &mut ui)?;
    Ok(ColorSections { clear, extensions, grid, entities, ui })
}

} // verus!
