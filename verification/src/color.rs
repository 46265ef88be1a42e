//! The color generator: parses a sectioned declaration and assembles the
//! config keys, the UI labels and the layered height tables that the
//! generated color type carries.

use vstd::prelude::*;

use crate::{Arm, GenError};
use crate::case::{key, key_of, label, label_of};
use crate::height::{
    allocate, band_end, band_seq, band_value, lemma_band_increasing, lemma_band_value_range,
};
use crate::sections::{
    ColorSections, ColorSectionsView, Slot, SlotView, lemma_spec_slots_ok, parse_color_sections,
    slot_views, slots_wf, spec_color_sections, spec_expect_comma, spec_expect_ident, spec_expect_kw,
    spec_slots,
};
use crate::token::Token;

verus! {

/// The identifiers of a slot list that receive presentation arms: each
/// primary followed by its aliases, in declaration order.
pub open spec fn arm_idents(slots: Seq<SlotView>) -> Seq<Seq<char>>
    decreases slots.len(),
{
    if slots.len() == 0 {
        Seq::empty()
    } else {
        arm_idents(slots.drop_last()) + seq![slots.last().primary] + slots.last().aliases
    }
}

/// Every identifier of a sectioned declaration that receives a key and a
/// label arm, in declaration order.
pub open spec fn all_color_idents(cs: ColorSectionsView) -> Seq<Seq<char>> {
    seq![cs.clear, cs.extensions] + arm_idents(cs.grid) + arm_idents(cs.entities) + arm_idents(
        cs.ui,
    )
}

/// An alias never occupies a slot of its own: a slot list yields one
/// presentation arm per identifier, aliases included, yet the slot count
/// that indexing and height assignment use stays one per merged entry.
pub proof fn lemma_alias_shares_slot(sv: Seq<SlotView>)
    ensures
        arm_idents(sv).len() == crate::sections::slots_ident_count(sv),
        crate::sections::slots_ident_count(sv) >= sv.len(),
    decreases sv.len(),
{
    if sv.len() == 0 {
    } else {
        lemma_alias_shares_slot(sv.drop_last());
    }
}

/// How many slots the line-height pass walks: the grid slots, the single
/// extensions variant, the entity slots and the ui slots.
pub open spec fn line_count_of(cs: ColorSectionsView) -> int {
    cs.grid.len() + 1 + cs.entities.len() + cs.ui.len() as int
}

/// The first height past the entity pass: the draw height of the clip
/// overlay.
pub open spec fn clip_height_of(cs: ColorSectionsView, ti: int) -> int {
    band_end(1, ti + 1, cs.entities.len() as int)
}

/// The first height past the line pass: the base height of the thing-angle
/// indicator.
pub open spec fn thing_angle_of(cs: ColorSectionsView, ti: int) -> int {
    band_end(clip_height_of(cs, ti) + 1, 1, line_count_of(cs))
}

/// The generated color definition: key and label arms for every identifier
/// (aliases included), and one height table per allocation pass, one value
/// per slot.
#[derive(Debug)]
pub struct ColorDef {
    pub sections: ColorSections,
    pub key_arms: Vec<Arm>,
    pub label_arms: Vec<Arm>,
    pub entity_heights: Vec<u64>,
    pub clip_height: u64,
    pub line_heights: Vec<u64>,
    pub thing_angle_height: u64,
    pub square_hgl_heights: Vec<u64>,
}

/// The contract of a generated color definition against its parsed
/// sections and the configured texture interval.
pub open spec fn color_def_wf(d: &ColorDef, ti: int) -> bool {
    let cs = d.sections@;
    let ids = all_color_idents(cs);
    &&& d.key_arms@.len() == ids.len()
    &&& forall|i: int|
        0 <= i < ids.len() ==> (#[trigger] d.key_arms@[i]).ident@ == ids[i]
            && d.key_arms@[i].text@ == key_of(ids[i])
    &&& d.label_arms@.len() == ids.len()
    &&& forall|i: int|
        0 <= i < ids.len() ==> (#[trigger] d.label_arms@[i]).ident@ == ids[i]
            && d.label_arms@[i].text@ == label_of(ids[i])
    &&& d.entity_heights@.len() == cs.entities.len()
    &&& forall|i: int|
        0 <= i < cs.entities.len() ==> d.entity_heights@[i] == band_value(1, ti + 1, i)
    &&& d.clip_height == clip_height_of(cs, ti)
    &&& d.line_heights@.len() == line_count_of(cs)
    &&& forall|i: int|
        0 <= i < line_count_of(cs) ==> d.line_heights@[i] == band_value(
            clip_height_of(cs, ti) + 1,
            1,
            i,
        )
    &&& d.thing_angle_height == thing_angle_of(cs, ti)
    &&& d.square_hgl_heights@.len() == cs.ui.len()
    &&& forall|i: int|
        0 <= i < cs.ui.len() ==> d.square_hgl_heights@[i] == band_value(
            thing_angle_of(cs, ti) + 2,
            1,
            i,
        )
}

/// Appends one key arm and one label arm for `id`.
fn push_ident_arms(key_arms: &mut Vec<Arm>, label_arms: &mut Vec<Arm>, id: &String)
    requires
        id@.len() >= 1,
    ensures
        final(key_arms)@.len() == old(key_arms)@.len() + 1,
        final(key_arms)@.subrange(0, old(key_arms)@.len() as int) == old(key_arms)@,
        final(key_arms)@.last().ident@ == id@,
        final(key_arms)@.last().text@ == key_of(id@),
        final(label_arms)@.len() == old(label_arms)@.len() + 1,
        final(label_arms)@.subrange(0, old(label_arms)@.len() as int) == old(label_arms)@,
        final(label_arms)@.last().ident@ == id@,
        final(label_arms)@.last().text@ == label_of(id@),
{
    key_arms.push(Arm { ident: id.clone(), text: key(id.as_str()) });
    label_arms.push(Arm { ident: id.clone(), text: label(id.as_str()) });
    proof {
        assert(final(key_arms)@.subrange(0, old(key_arms)@.len() as int) =~= old(key_arms)@);
        assert(final(label_arms)@.subrange(0, old(label_arms)@.len() as int) =~= old(label_arms)@);
    }
}

/// Appends key and label arms for every identifier of `slots`, aliases
/// included, in declaration order.
fn push_slot_arms(key_arms: &mut Vec<Arm>, label_arms: &mut Vec<Arm>, slots: &Vec<Slot>)
    requires
        slots_wf(slot_views(slots@)),
    ensures
        ({
            let ids = arm_idents(slot_views(slots@));
            &&& final(key_arms)@.len() == old(key_arms)@.len() + ids.len()
            &&& final(key_arms)@.subrange(0, old(key_arms)@.len() as int) == old(key_arms)@
            &&& forall|k: int|
                0 <= k < ids.len() ==> (#[trigger] final(key_arms)@[old(key_arms)@.len() + k]).ident@
                    == ids[k] && final(key_arms)@[old(key_arms)@.len() + k].text@ == key_of(ids[k])
            &&& final(label_arms)@.len() == old(label_arms)@.len() + ids.len()
            &&& final(label_arms)@.subrange(0, old(label_arms)@.len() as int) == old(label_arms)@
            &&& forall|k: int|
                0 <= k < ids.len() ==> (#[trigger] final(label_arms)@[old(label_arms)@.len()
                    + k]).ident@ == ids[k] && final(label_arms)@[old(label_arms)@.len() + k].text@
                    == label_of(ids[k])
        }),
{
    let ghost sv = slot_views(slots@);
    let ghost key0 = key_arms@;
    let ghost lab0 = label_arms@;
    let mut i: usize = 0;
    while i < slots.len()
        invariant
            i <= slots@.len(),
            sv == slot_views(slots@),
            slots_wf(sv),
            key_arms@.len() == key0.len() + arm_idents(sv.take(i as int)).len(),
            key_arms@.subrange(0, key0.len() as int) == key0,
            forall|k: int|
                0 <= k < arm_idents(sv.take(i as int)).len() ==> (#[trigger] key_arms@[key0.len()
                    + k]).ident@ == arm_idents(sv.take(i as int))[k] && key_arms@[key0.len()
                    + k].text@ == key_of(arm_idents(sv.take(i as int))[k]),
            label_arms@.len() == lab0.len() + arm_idents(sv.take(i as int)).len(),
            label_arms@.subrange(0, lab0.len() as int) == lab0,
            forall|k: int|
                0 <= k < arm_idents(sv.take(i as int)).len() ==> (#[trigger] label_arms@[lab0.len()
                    + k]).ident@ == arm_idents(sv.take(i as int))[k] && label_arms@[lab0.len()
                    + k].text@ == label_of(arm_idents(sv.take(i as int))[k]),
        decreases slots@.len() - i,
    {
        let slot = &slots[i];
        proof {
            assert(sv[i as int] == slot@);
            assert(sv[i as int].primary.len() >= 1);
        }
        let ghost key_a = key_arms@;
        let ghost lab_a = label_arms@;
        push_ident_arms(key_arms, label_arms, &slot.primary);
        let mut j: usize = 0;
        let ghost ids_i = arm_idents(sv.take(i as int)) + seq![slot@.primary];
        proof {
            assert(slot@.aliases.take(0) =~= Seq::<Seq<char>>::empty());
            assert(ids_i + slot@.aliases.take(0) =~= ids_i);
            assert(key_arms@.subrange(0, key0.len() as int) =~= key_a.subrange(
                0,
                key0.len() as int,
            ));
            assert(label_arms@.subrange(0, lab0.len() as int) =~= lab_a.subrange(
                0,
                lab0.len() as int,
            ));
            assert forall|k: int| 0 <= k < ids_i.len() implies (
            #[trigger] key_arms@[key0.len() + k]).ident@ == ids_i[k] && key_arms@[key0.len()
                + k].text@ == key_of(ids_i[k]) by {
                if k < ids_i.len() - 1 {
                    assert(key_arms@[key0.len() + k] == key_a[key0.len() + k]);
                    assert(ids_i[k] == arm_idents(sv.take(i as int))[k]);
                } else {
                    assert(key_arms@[key0.len() + k] == key_arms@.last());
                }
            }
            assert forall|k: int| 0 <= k < ids_i.len() implies (
            #[trigger] label_arms@[lab0.len() + k]).ident@ == ids_i[k] && label_arms@[lab0.len()
                + k].text@ == label_of(ids_i[k]) by {
                if k < ids_i.len() - 1 {
                    assert(label_arms@[lab0.len() + k] == lab_a[lab0.len() + k]);
                    assert(ids_i[k] == arm_idents(sv.take(i as int))[k]);
                } else {
                    assert(label_arms@[lab0.len() + k] == label_arms@.last());
                }
            }
        }
        while j < slot.aliases.len()
            invariant
                j <= slot.aliases@.len(),
                sv == slot_views(slots@),
                slots_wf(sv),
                i < slots@.len(),
                slot == slots@[i as int],
                sv[i as int] == slot@,
                ids_i == arm_idents(sv.take(i as int)) + seq![slot@.primary],
                key_arms@.len() == key0.len() + ids_i.len() + j,
                key_arms@.subrange(0, key0.len() as int) == key0,
                forall|k: int|
                    0 <= k < ids_i.len() + j ==> (#[trigger] key_arms@[key0.len() + k]).ident@ == (
                    ids_i + slot@.aliases.take(j as int))[k] && key_arms@[key0.len() + k].text@
                        == key_of((ids_i + slot@.aliases.take(j as int))[k]),
                label_arms@.len() == lab0.len() + ids_i.len() + j,
                label_arms@.subrange(0, lab0.len() as int) == lab0,
                forall|k: int|
                    0 <= k < ids_i.len() + j ==> (#[trigger] label_arms@[lab0.len() + k]).ident@
                        == (ids_i + slot@.aliases.take(j as int))[k] && label_arms@[lab0.len()
                        + k].text@ == label_of((ids_i + slot@.aliases.take(j as int))[k]),
            decreases slot.aliases@.len() - j,
        {
            proof {
                assert(slot@.aliases[j as int] == slot.aliases@[j as int]@);
                assert(slot@.aliases[j as int].len() >= 1);
            }
            let ghost keyb = key_arms@;
            let ghost labb = label_arms@;
            push_ident_arms(key_arms, label_arms, &slot.aliases[j]);
            proof {
                assert(key_arms@.subrange(0, key0.len() as int) =~= keyb.subrange(
                    0,
                    key0.len() as int,
                ));
                assert(label_arms@.subrange(0, lab0.len() as int) =~= labb.subrange(
                    0,
                    lab0.len() as int,
                ));
                assert(slot@.aliases.take(j + 1) =~= slot@.aliases.take(j as int).push(
                    slot@.aliases[j as int],
                ));
                assert forall|k: int| 0 <= k < ids_i.len() + j + 1 implies (
                #[trigger] key_arms@[key0.len() + k]).ident@ == (ids_i + slot@.aliases.take(j + 1))[k]
                    && key_arms@[key0.len() + k].text@ == key_of(
                    (ids_i + slot@.aliases.take(j + 1))[k],
                ) by {
                    if k < ids_i.len() + j {
                        assert(key_arms@[key0.len() + k] == keyb[key0.len() + k]);
                    }
                }
                assert forall|k: int| 0 <= k < ids_i.len() + j + 1 implies (
                #[trigger] label_arms@[lab0.len() + k]).ident@ == (ids_i + slot@.aliases.take(j + 1))[k]
                    && label_arms@[lab0.len() + k].text@ == label_of(
                    (ids_i + slot@.aliases.take(j + 1))[k],
                ) by {
                    if k < ids_i.len() + j {
                        assert(label_arms@[lab0.len() + k] == labb[lab0.len() + k]);
                    }
                }
            }
            j += 1;
        }
        proof {
            assert(slot@.aliases.take(slot.aliases@.len() as int) =~= slot@.aliases);
            assert(sv.take(i + 1).drop_last() =~= sv.take(i as int));
            assert(sv.take(i + 1).last() == sv[i as int]);
            assert(arm_idents(sv.take(i + 1)) =~= ids_i + slot@.aliases);
        }
        i += 1;
    }
    proof {
        assert(sv.take(slots@.len() as int) =~= sv);
    }
}

/// Every height of the whole allocation pipeline, in assignment order: the
/// entity band, the line band starting one past the clip height, the two
/// thing-angle indicator heights, and the square-highlight band two past
/// them.
pub open spec fn pipeline_heights(ti: int, n_e: int, n_l: int, n_u: int) -> Seq<int> {
    let clip = band_end(1, ti + 1, n_e);
    let ta = band_end(clip + 1, 1, n_l);
    band_seq(1, ti + 1, n_e as nat) + band_seq(clip + 1, 1, n_l as nat) + seq![ta, ta + 1]
        + band_seq(ta + 2, 1, n_u as nat)
}

proof fn lemma_adjacent_increasing(s: Seq<int>, p: int, q: int)
    requires
        forall|m: int| 0 <= m < s.len() - 1 ==> #[trigger] s[m] < s[m + 1],
        0 <= p < q < s.len(),
    ensures
        s[p] < s[q],
    decreases q - p,
{
    if p + 1 == q {
        assert(s[p] < s[p + 1]);
    } else {
        lemma_adjacent_increasing(s, p, q - 1);
        assert(s[q - 1] < s[q - 1 + 1]);
    }
}

/// Height allocation never assigns two equal heights anywhere in the
/// pipeline: across the entity, line, thing-angle and square-highlight
/// passes the heights are strictly increasing in assignment order.
pub proof fn lemma_pipeline_heights_distinct(ti: int, n_e: int, n_l: int, n_u: int)
    requires
        ti >= 0,
        n_e >= 0,
        n_l >= 0,
        n_u >= 0,
    ensures
        forall|p: int, q: int|
            0 <= p < q < pipeline_heights(ti, n_e, n_l, n_u).len() ==> pipeline_heights(
                ti,
                n_e,
                n_l,
                n_u,
            )[p] < pipeline_heights(ti, n_e, n_l, n_u)[q],
{
    let s = pipeline_heights(ti, n_e, n_l, n_u);
    let clip = band_end(1, ti + 1, n_e);
    let ta = band_end(clip + 1, 1, n_l);
    assert forall|m: int| 0 <= m < s.len() - 1 implies #[trigger] s[m] < s[m + 1] by {
        if m + 1 < n_e {
            assert((m + 1) * (ti + 1) == m * (ti + 1) + (ti + 1)) by (nonlinear_arith);
        } else if m + 1 == n_e {
            lemma_band_value_range(1, ti + 1, n_e, m);
            assert(s[m + 1] == clip + 1);
        } else if m + 1 < n_e + n_l {
            assert(s[m] == clip + 1 + (m - n_e) * 1);
            assert(s[m + 1] == clip + 1 + (m + 1 - n_e) * 1);
            assert((m - n_e) * 1 == m - n_e && (m + 1 - n_e) * 1 == m + 1 - n_e) by (nonlinear_arith);
        } else if m + 1 == n_e + n_l {
            assert(s[m] == clip + 1 + (m - n_e) * 1);
            assert((m - n_e) * 1 == m - n_e) by (nonlinear_arith);
            assert(s[m + 1] == ta);
        } else if m + 1 == n_e + n_l + 1 {
            assert(s[m] == ta && s[m + 1] == ta + 1);
        } else if m + 1 == n_e + n_l + 2 {
            assert(s[m] == ta + 1);
            assert(s[m + 1] == ta + 2 + 0 * 1);
            assert(0 * 1 == 0) by (nonlinear_arith);
        } else {
            assert(s[m] == ta + 2 + (m - n_e - n_l - 2) * 1);
            assert(s[m + 1] == ta + 2 + (m + 1 - n_e - n_l - 2) * 1);
            assert((m - n_e - n_l - 2) * 1 == m - n_e - n_l - 2 && (m + 1 - n_e - n_l - 2) * 1 == m
                + 1 - n_e - n_l - 2) by (nonlinear_arith);
        }
    }
    assert forall|p: int, q: int| 0 <= p < q < s.len() implies s[p] < s[q] by {
        lemma_adjacent_increasing(s, p, q);
    }
}

/// The height tables of a generated color definition are strictly
/// layered: within each pass the heights strictly increase in declaration
/// order, every entity height lies below every line height, every line
/// height below the two thing-angle indicator heights, and those below
/// every square-highlight height. No two variants, within a pass or
/// across passes, ever receive equal heights.
pub proof fn lemma_color_def_heights_distinct(d: &ColorDef, ti: int)
    requires
        ti >= 0,
        color_def_wf(d, ti),
    ensures
        forall|i: int, j: int|
            0 <= i < j < d.entity_heights@.len() ==> d.entity_heights@[i] < d.entity_heights@[j],
        forall|i: int, j: int|
            0 <= i < j < d.line_heights@.len() ==> d.line_heights@[i] < d.line_heights@[j],
        forall|i: int, j: int|
            0 <= i < j < d.square_hgl_heights@.len() ==> d.square_hgl_heights@[i]
                < d.square_hgl_heights@[j],
        forall|i: int, j: int|
            0 <= i < d.entity_heights@.len() && 0 <= j < d.line_heights@.len()
                ==> d.entity_heights@[i] < d.line_heights@[j],
        forall|j: int| 0 <= j < d.line_heights@.len() ==> d.line_heights@[j] < d.thing_angle_height,
        forall|k: int|
            0 <= k < d.square_hgl_heights@.len() ==> d.thing_angle_height + 1
                < d.square_hgl_heights@[k],
{
    let cs = d.sections@;
    let n_e = cs.entities.len() as int;
    let n_l = line_count_of(cs);
    let clip = clip_height_of(cs, ti);
    let ta = thing_angle_of(cs, ti);
    assert forall|i: int, j: int| 0 <= i < j < n_e implies d.entity_heights@[i]
        < d.entity_heights@[j] by {
        lemma_band_increasing(1, ti + 1, i, j);
    }
    assert forall|i: int, j: int| 0 <= i < j < n_l implies d.line_heights@[i]
        < d.line_heights@[j] by {
        lemma_band_increasing(clip + 1, 1, i, j);
    }
    assert forall|i: int, j: int| 0 <= i < j < cs.ui.len() implies d.square_hgl_heights@[i]
        < d.square_hgl_heights@[j] by {
        lemma_band_increasing(ta + 2, 1, i, j);
    }
    assert forall|i: int, j: int| 0 <= i < n_e && 0 <= j < n_l implies d.entity_heights@[i]
        < d.line_heights@[j] by {
        lemma_band_value_range(1, ti + 1, n_e, i);
        lemma_band_value_range(clip + 1, 1, n_l, j);
    }
    assert forall|j: int| 0 <= j < n_l implies d.line_heights@[j] < d.thing_angle_height by {
        lemma_band_value_range(clip + 1, 1, n_l, j);
    }
    assert forall|k: int| 0 <= k < cs.ui.len() implies d.thing_angle_height + 1
        < d.square_hgl_heights@[k] by {
        lemma_band_value_range(ta + 2, 1, cs.ui.len() as int, k);
    }
}

/// Parses a sectioned declaration and assembles the generated color
/// definition: key and label arms for every identifier including aliases,
/// and the four-pass height pipeline (entity heights, the clip height, line
/// heights, the thing-angle heights, square-highlight heights), each later
/// pass starting past the end of the pass before it. The token and
/// interval bounds keep every height within the machine range.
pub fn color_enum(toks: &Vec<Token>, texture_interval: u64) -> (r: Result<ColorDef, GenError>)
    requires
        toks@.len() <= 65536,
        texture_interval <= 65536,
    ensures
        match r {
            Ok(d) => spec_color_sections(toks@) == Ok::<_, GenError>(d.sections@) && color_def_wf(
                &d,
                texture_interval as int,
            ),
            Err(e) => spec_color_sections(toks@) == Err::<ColorSectionsView, _>(e),
        },
{
    let sections = parse_color_sections(toks)?;
    let ghost t = toks@;
    let ghost cs = sections@;
    let ghost ti = texture_interval as int;
    proof {
        let r0 = spec_expect_kw(t, 0, "clear"@);
        assert(r0 is Ok);
        let i1 = r0->Ok_0;
        let r1 = spec_expect_ident(t, i1);
        assert(r1 is Ok);
        let i2 = r1->Ok_0.1;
        let r2 = spec_expect_comma(t, i2);
        assert(r2 is Ok);
        let i3 = r2->Ok_0;
        let r3 = spec_expect_kw(t, i3, "extensions"@);
        assert(r3 is Ok);
        let i4 = r3->Ok_0;
        let r4 = spec_expect_ident(t, i4);
        assert(r4 is Ok);
        let i5 = r4->Ok_0.1;
        let r5 = spec_expect_comma(t, i5);
        assert(r5 is Ok);
        let i6 = r5->Ok_0;
        let r6 = spec_expect_kw(t, i6, "grid"@);
        assert(r6 is Ok);
        let i7 = r6->Ok_0;
        let rg = spec_slots(t, i7, Some("entities"@), Seq::empty());
        assert(rg is Ok);
        assert(0 <= i7 <= t.len());
        lemma_spec_slots_ok(t, i7, Some("entities"@), Seq::empty());
        let i8 = rg->Ok_0.1;
        let re = spec_slots(t, i8, Some("ui"@), Seq::empty());
        assert(re is Ok);
        lemma_spec_slots_ok(t, i8, Some("ui"@), Seq::empty());
        let i9 = re->Ok_0.1;
        let ru = spec_slots(t, i9, None, Seq::empty());
        assert(ru is Ok);
        lemma_spec_slots_ok(t, i9, None, Seq::empty());
        assert(cs.grid == rg->Ok_0.0 && cs.entities == re->Ok_0.0 && cs.ui == ru->Ok_0.0);
        assert(slots_wf(cs.grid) && slots_wf(cs.entities) && slots_wf(cs.ui));
        assert(cs.grid.len() <= 65536 && cs.entities.len() <= 65536 && cs.ui.len() <= 65536);
        assert(cs.clear.len() >= 1 && cs.extensions.len() >= 1);
    }
    // The entity pass: one band for the entity slots, starting at 1, one
    // texture stack of headroom per slot.
    let interval: u64 = texture_interval + 1;
    let n_e: usize = sections.entities.len();
    proof {
        assert(n_e * interval <= 65536 * 65537) by (nonlinear_arith)
            requires
                0 <= n_e as int <= 65536,
                0 <= interval as int <= 65537,
        ;
    }
    let (entity_heights, clip_height) = allocate(n_e, 1, interval);
    // The line pass: grid, extensions, entities and ui slots in order,
    // starting one past the clip height.
    let line_count: usize = sections.grid.len() + 1 + n_e + sections.ui.len();
    proof {
        assert(line_count * 1 == line_count) by (nonlinear_arith);
    }
    let (line_heights, thing_angle_height) = allocate(line_count, clip_height + 1, 1);
    // The square-highlight pass: ui slots only, starting past the two
    // thing-angle indicator heights.
    let n_u: usize = sections.ui.len();
    proof {
        assert(n_u * 1 == n_u) by (nonlinear_arith);
    }
    let (square_hgl_heights, _next) = allocate(n_u, thing_angle_height + 2, 1);
    // The presentation arms, in declaration order: clear, extensions, then
    // every slot's primary followed by its aliases.
    let mut key_arms: Vec<Arm> = Vec::new();
    let mut label_arms: Vec<Arm> = Vec::new();
    push_ident_arms(&mut key_arms, &mut label_arms, &sections.clear);
    let ghost ka1 = key_arms@;
    let ghost la1 = label_arms@;
    push_ident_arms(&mut key_arms, &mut label_arms, &sections.extensions);
    let ghost ka2 = key_arms@;
    let ghost la2 = label_arms@;
    push_slot_arms(&mut key_arms, &mut label_arms, &sections.grid);
    let ghost ka3 = key_arms@;
    let ghost la3 = label_arms@;
    push_slot_arms(&mut key_arms, &mut label_arms, &sections.entities);
    let ghost ka4 = key_arms@;
    let ghost la4 = label_arms@;
    push_slot_arms(&mut key_arms, &mut label_arms, &sections.ui);
    proof {
        let ids = all_color_idents(cs);
        let g = arm_idents(cs.grid);
        let e = arm_idents(cs.entities);
        let u = arm_idents(cs.ui);
        assert(ka2[0] == ka1[0] && la2[0] == la1[0]) by {
            assert(ka2.subrange(0, 1) == ka1);
            assert(la2.subrange(0, 1) == la1);
        }
        assert forall|k: int| 0 <= k < ids.len() implies (#[trigger] key_arms@[k]).ident@ == ids[k]
            && key_arms@[k].text@ == key_of(ids[k]) by {
            if k < 2 + g.len() + e.len() {
                assert(key_arms@[k] == ka4[k]);
                if k < 2 + g.len() {
                    assert(ka4[k] == ka3[k]);
                    if k < 2 {
                        assert(ka3[k] == ka2[k]);
                    } else {
                        let k0 = k - 2;
                        assert(ka3[ka2.len() + k0].ident@ == g[k0] && ka3[ka2.len() + k0].text@
                            == key_of(g[k0]));
                        assert(ids[k] == g[k0]);
                    }
                } else {
                    let k0 = k - 2 - g.len();
                    assert(ka4[ka3.len() + k0].ident@ == e[k0] && ka4[ka3.len() + k0].text@
                        == key_of(e[k0]));
                    assert(ids[k] == e[k0]);
                }
            } else {
                let k0 = k - 2 - g.len() - e.len();
                assert(key_arms@[ka4.len() + k0].ident@ == u[k0] && key_arms@[ka4.len() + k0].text@
                    == key_of(u[k0]));
                assert(ids[k] == u[k0]);
            }
        }
        assert forall|k: int| 0 <= k < ids.len() implies (#[trigger] label_arms@[k]).ident@
            == ids[k] && label_arms@[k].text@ == label_of(ids[k]) by {
            if k < 2 + g.len() + e.len() {
                assert(label_arms@[k] == la4[k]);
                if k < 2 + g.len() {
                    assert(la4[k] == la3[k]);
                    if k < 2 {
                        assert(la3[k] == la2[k]);
                    } else {
                        let k0 = k - 2;
                        assert(la3[la2.len() + k0].ident@ == g[k0] && la3[la2.len() + k0].text@
                            == label_of(g[k0]));
                        assert(ids[k] == g[k0]);
                    }
                } else {
                    let k0 = k - 2 - g.len();
                    assert(la4[la3.len() + k0].ident@ == e[k0] && la4[la3.len() + k0].text@
                        == label_of(e[k0]));
                    assert(ids[k] == e[k0]);
                }
            } else {
                let k0 = k - 2 - g.len() - e.len();
                assert(label_arms@[la4.len() + k0].ident@ == u[k0] && label_arms@[la4.len()
                    + k0].text@ == label_of(u[k0]));
                assert(ids[k] == u[k0]);
            }
        }
    }
    Ok(
        ColorDef {
            sections,
            key_arms,
            label_arms,
            entity_heights,
            clip_height,
            line_heights,
            thing_angle_height,
            square_hgl_heights,
        },
    )
}

} // verus!
