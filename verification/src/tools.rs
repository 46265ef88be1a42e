//! Generators for the tool, subtool and bind enums: presentation labels,
//! uppercase headers, icon and companion file names, and the leading-word
//! split that ties a subtool to its tool.

use vstd::prelude::*;

use crate::GenError;
use crate::case::{
    bind_key, bind_key_of, bind_label, bind_label_of, char_is_upper, file_name, file_name_of,
    header, header_of, is_upper, key, key_of, label, label_of,
};
use crate::extract::{parse_flat_enum, spec_flat_enum};
use crate::text::{push_char, str_eq};
use crate::token::{Token, group_ident_views};

verus! {

/// Every identifier of `ids` has at least one character.
pub open spec fn all_nonempty(ids: Seq<Seq<char>>) -> bool {
    forall|i: int| 0 <= i < ids.len() ==> (#[trigger] ids[i]).len() >= 1
}

/// The common presentation pair of a tool-like variant: the uppercase
/// header with the given suffix, and the icon file name.
pub fn tools_common(id: &str, suffix: &str) -> (r: (String, String))
    requires
        id@.len() >= 1,
    ensures
        r.0@ == header_of(id@, suffix@),
        r.1@ == file_name_of(id@, ".png"@),
{
    (header(id, suffix), file_name(id, ".png"))
}

/// One generated arm of the tool enum.
#[derive(Debug)]
pub struct ToolArm {
    pub ident: String,
    pub label: String,
    pub header: String,
    pub icon_file_name: String,
}

/// The generated definition of the tool enum: one arm per variant, in
/// declaration order. The bind of a tool is the variant identifier itself.
#[derive(Debug)]
pub struct ToolEnumDef {
    pub arms: Vec<ToolArm>,
}

/// The contract of the generated tool arms against the declared variants.
pub open spec fn tool_arms_wf(arms: Seq<ToolArm>, ids: Seq<Seq<char>>) -> bool {
    &&& arms.len() == ids.len()
    &&& forall|i: int|
        0 <= i < ids.len() ==> {
            let a = #[trigger] arms[i];
            &&& a.ident@ == ids[i]
            &&& a.label@ == label_of(ids[i])
            &&& a.header@ == header_of(ids[i], " TOOL"@)
            &&& a.icon_file_name@ == file_name_of(ids[i], ".png"@)
        }
}

/// Builds the tool enum definition from the flat declaration in `toks`:
/// the declaration must name the enum `Tool`, and every variant receives
/// its label, header and icon file name.
pub fn declare_tool_enum(toks: &Vec<Token>) -> (r: Result<ToolEnumDef, GenError>)
    ensures
        match r {
            Ok(d) => spec_flat_enum(toks@) matches Ok(p) && p.0 == "Tool"@ && all_nonempty(p.1)
                && tool_arms_wf(d.arms@, p.1),
            Err(e) => match spec_flat_enum(toks@) {
                Err(e2) => e == e2,
                Ok(p) => e == GenError::UnexpectedToken && (p.0 != "Tool"@ || !all_nonempty(p.1)),
            },
        },
{
    let (name, variants) = parse_flat_enum(toks)?;
    if !str_eq(name.as_str(), "Tool") {
        return Err(GenError::UnexpectedToken);
    }
    let ghost ids = variants@.map_values(|s: String| s@);
    let mut arms: Vec<ToolArm> = Vec::new();
    let mut i: usize = 0;
    while i < variants.len()
        invariant
            i <= variants@.len(),
            ids == variants@.map_values(|s: String| s@),
            spec_flat_enum(toks@) == Ok::<_, GenError>((name@, ids)),
            name@ == "Tool"@,
            forall|k: int| 0 <= k < i ==> (#[trigger] ids[k]).len() >= 1,
            tool_arms_wf(arms@, ids.take(i as int)),
        decreases variants@.len() - i,
    {
        let v = &variants[i];
        if v.as_str().unicode_len() == 0 {
            proof {
                assert(ids[i as int] == variants@[i as int]@);
                assert(!all_nonempty(ids));
            }
            return Err(GenError::UnexpectedToken);
        }
        let (hdr, icon) = tools_common(v.as_str(), " TOOL");
        arms.push(ToolArm { ident: v.clone(), label: label(v.as_str()), header: hdr, icon_file_name: icon });
        i += 1;
        proof {
            assert(ids.take(i as int).drop_last() =~= ids.take(i - 1));
            assert(tool_arms_wf(arms@, ids.take(i as int)));
        }
    }
    proof {
        assert(ids.take(variants@.len() as int) =~= ids);
    }
    Ok(ToolEnumDef { arms })
}

/// The position of the first uppercase letter of `s` at or past `i`, or
/// the length of `s` when no such letter follows.
pub open spec fn first_upper_from(s: Seq<char>, i: int) -> int
    decreases s.len() - i,
        when 0 <= i <= s.len()
{
    if i == s.len() {
        i
    } else if is_upper(s[i]) {
        i
    } else {
        first_upper_from(s, i + 1)
    }
}

proof fn lemma_first_upper_from(s: Seq<char>, i: int)
    requires
        0 <= i <= s.len(),
    ensures
        i <= first_upper_from(s, i) <= s.len(),
        forall|j: int| i <= j < first_upper_from(s, i) ==> !is_upper(#[trigger] s[j]),
        first_upper_from(s, i) < s.len() ==> is_upper(s[first_upper_from(s, i)]),
    decreases s.len() - i,
{
    if i == s.len() {
    } else if is_upper(s[i]) {
    } else {
        lemma_first_upper_from(s, i + 1);
    }
}

/// Where a subtool identifier splits into its leading tool word and its
/// own label: the first uppercase letter after the first character.
pub open spec fn split_of(s: Seq<char>) -> int
    recommends
        s.len() >= 1,
{
    first_upper_from(s, 1)
}

/// One generated arm of the subtool enum: the owning tool is the leading
/// word of the identifier, the label is the rest, the bind key covers the
/// whole identifier and names the companion documentation file.
#[derive(Debug)]
pub struct SubToolArm {
    pub ident: String,
    pub tool: String,
    pub label: String,
    pub bind_key: String,
    pub header: String,
    pub icon_file_name: String,
    pub bind_file_name: String,
}

/// The generated definition of the subtool enum.
#[derive(Debug)]
pub struct SubToolEnumDef {
    pub arms: Vec<SubToolArm>,
}

/// The contract of the generated subtool arms against the declared
/// variants.
pub open spec fn subtool_arms_wf(arms: Seq<SubToolArm>, ids: Seq<Seq<char>>) -> bool {
    &&& arms.len() == ids.len()
    &&& forall|i: int|
        0 <= i < ids.len() ==> {
            let a = #[trigger] arms[i];
            let v = ids[i];
            &&& a.ident@ == v
            &&& a.tool@ == v.take(split_of(v))
            &&& a.label@ == if split_of(v) < v.len() {
                label_of(v.skip(split_of(v)))
            } else {
                Seq::<char>::empty()
            }
            &&& a.bind_key@ == key_of(v)
            &&& a.header@ == header_of(v, " SUBTOOL"@)
            &&& a.icon_file_name@ == file_name_of(v, ".png"@)
            &&& a.bind_file_name@ == file_name_of(v, ".md"@)
        }
}

/// Splits one subtool identifier into its leading tool word and the label
/// of the rest.
fn split_subtool(id: &str) -> (r: (String, String))
    requires
        id@.len() >= 1,
    ensures
        r.0@ == id@.take(split_of(id@)),
        r.1@ == if split_of(id@) < id@.len() {
            label_of(id@.skip(split_of(id@)))
        } else {
            Seq::<char>::empty()
        },
{
    let n = id.unicode_len();
    let mut k: usize = 1;
    while k < n && !char_is_upper(id.get_char(k))
        invariant
            1 <= k <= n,
            n == id@.len(),
            forall|j: int| 1 <= j < k ==> !is_upper(#[trigger] id@[j]),
        decreases n - k,
    {
        k += 1;
    }
    proof {
        lemma_first_upper_from(id@, 1);
        let fu = first_upper_from(id@, 1);
        if k < fu {
            assert(!is_upper(id@[k as int]));
            assert(false);
        } else if fu < k {
            assert(!is_upper(id@[fu]));
            assert(false);
        }
    }
    let mut tool = String::new();
    let mut j: usize = 0;
    while j < k
        invariant
            j <= k <= n,
            n == id@.len(),
            tool@ == id@.take(j as int),
        decreases k - j,
    {
        push_char(&mut tool, id.get_char(j));
        proof {
            assert(id@.take(j + 1) =~= id@.take(j as int).push(id@[j as int]));
        }
        j += 1;
    }
    let rest_label = if k < n {
        let rest = id.substring_char(k, n);
        proof {
            assert(rest@ =~= id@.skip(k as int));
        }
        label(rest)
    } else {
        String::new()
    };
    proof {
        if split_of(id@) >= id@.len() {
            assert(rest_label@ =~= Seq::<char>::empty());
        }
    }
    (tool, rest_label)
}

/// Builds the subtool enum definition from the flat declaration in
/// `toks`: the declaration must name the enum `SubTool`, and every variant
/// receives its owning tool, label, bind key, header and file names.
pub fn subtool_enum(toks: &Vec<Token>) -> (r: Result<SubToolEnumDef, GenError>)
    ensures
        match r {
            Ok(d) => spec_flat_enum(toks@) matches Ok(p) && p.0 == "SubTool"@ && all_nonempty(p.1)
                && subtool_arms_wf(d.arms@, p.1),
            Err(e) => match spec_flat_enum(toks@) {
                Err(e2) => e == e2,
                Ok(p) => e == GenError::UnexpectedToken && (p.0 != "SubTool"@ || !all_nonempty(
                    p.1,
                )),
            },
        },
{
    let (name, variants) = parse_flat_enum(toks)?;
    if !str_eq(name.as_str(), "SubTool") {
        return Err(GenError::UnexpectedToken);
    }
    let ghost ids = variants@.map_values(|s: String| s@);
    let mut arms: Vec<SubToolArm> = Vec::new();
    let mut i: usize = 0;
    while i < variants.len()
        invariant
            i <= variants@.len(),
            ids == variants@.map_values(|s: String| s@),
            spec_flat_enum(toks@) == Ok::<_, GenError>((name@, ids)),
            name@ == "SubTool"@,
            forall|k: int| 0 <= k < i ==> (#[trigger] ids[k]).len() >= 1,
            subtool_arms_wf(arms@, ids.take(i as int)),
        decreases variants@.len() - i,
    {
        let v = &variants[i];
        if v.as_str().unicode_len() == 0 {
            proof {
                assert(ids[i as int] == variants@[i as int]@);
                assert(!all_nonempty(ids));
            }
            return Err(GenError::UnexpectedToken);
        }
        let (tool, lab) = split_subtool(v.as_str());
        let (hdr, icon) = tools_common(v.as_str(), " SUBTOOL");
        arms.push(
            SubToolArm {
                ident: v.clone(),
                tool,
                label: lab,
                bind_key: key(v.as_str()),
                header: hdr,
                icon_file_name: icon,
                bind_file_name: file_name(v.as_str(), ".md"),
            },
        );
        i += 1;
        proof {
            assert(ids.take(i as int).drop_last() =~= ids.take(i - 1));
            assert(subtool_arms_wf(arms@, ids.take(i as int)));
        }
    }
    proof {
        assert(ids.take(variants@.len() as int) =~= ids);
    }
    Ok(SubToolEnumDef { arms })
}

/// One generated arm of the bind enum.
#[derive(Debug)]
pub struct BindArm {
    pub ident: String,
    pub label: String,
    pub key: String,
}

/// The generated definition of the bind enum: one label and one config
/// key per bind identifier.
#[derive(Debug)]
pub struct BindEnumDef {
    pub arms: Vec<BindArm>,
}

/// The contract of the generated bind arms: bind identifiers may already
/// contain underscores, which count as word boundaries of their own.
pub open spec fn bind_arms_wf(arms: Seq<BindArm>, ids: Seq<Seq<char>>) -> bool {
    &&& arms.len() == ids.len()
    &&& forall|i: int|
        0 <= i < ids.len() ==> {
            let a = #[trigger] arms[i];
            &&& a.ident@ == ids[i]
            &&& a.label@ == bind_label_of(ids[i])
            &&& a.key@ == bind_key_of(ids[i])
        }
}

/// Builds the bind enum definition: the first token must be the group of
/// bind identifiers, and every identifier receives its label and its
/// config-file key.
pub fn bind_enum(toks: &Vec<Token>) -> (r: Result<BindEnumDef, GenError>)
    ensures
        match r {
            Ok(d) => toks@.len() >= 1 && toks@[0] is Group && all_nonempty(
                group_ident_views(toks@[0]),
            ) && bind_arms_wf(d.arms@, group_ident_views(toks@[0])),
            Err(e) => if toks@.len() >= 1 && toks@[0] is Group {
                e == GenError::UnexpectedToken && !all_nonempty(group_ident_views(toks@[0]))
            } else {
                e == GenError::MissingGroup
            },
        },
{
    if toks.len() == 0 {
        return Err(GenError::MissingGroup);
    }
    let idents = match &toks[0] {
        Token::Group(_, children) => crate::token::idents_of(children),
        _ => {
            return Err(GenError::MissingGroup);
        },
    };
    let ghost ids = group_ident_views(toks@[0]);
    proof {
        assert(ids == idents@.map_values(|s: String| s@));
    }
    let mut arms: Vec<BindArm> = Vec::new();
    let mut i: usize = 0;
    while i < idents.len()
        invariant
            i <= idents@.len(),
            ids == idents@.map_values(|s: String| s@),
            toks@.len() >= 1 && toks@[0] is Group,
            ids == group_ident_views(toks@[0]),
            forall|k: int| 0 <= k < i ==> (#[trigger] ids[k]).len() >= 1,
            bind_arms_wf(arms@, ids.take(i as int)),
        decreases idents@.len() - i,
    {
        let v = &idents[i];
        if v.as_str().unicode_len() == 0 {
            proof {
                assert(ids[i as int] == idents@[i as int]@);
                assert(!all_nonempty(ids));
            }
            return Err(GenError::UnexpectedToken);
        }
        arms.push(
            BindArm {
                ident: v.clone(),
                label: bind_label(v.as_str()),
                key: bind_key(v.as_str()),
            },
        );
        i += 1;
        proof {
            assert(ids.take(i as int).drop_last() =~= ids.take(i - 1));
            assert(bind_arms_wf(arms@, ids.take(i as int)));
        }
    }
    proof {
        assert(ids.take(idents@.len() as int) =~= ids);
    }
    Ok(BindEnumDef { arms })
}

} // verus!
