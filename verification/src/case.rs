//! The identifier case transformer: derives the label, key, header and file
//! name forms of a canonical identifier in one left-to-right scan, plus the
//! underscore-aware forms used for bind identifiers and the inverse
//! transform that recovers an identifier from a separated phrase.

use vstd::prelude::*;

use crate::text::push_char;

verus! {

/// Whether `c` is an ASCII uppercase letter.
pub open spec fn is_upper(c: char) -> bool {
    65 <= c as int <= 90
}

/// Whether `c` is an ASCII lowercase letter.
pub open spec fn is_lower(c: char) -> bool {
    97 <= c as int <= 122
}

/// Whether `c` is an ASCII letter.
pub open spec fn is_letter(c: char) -> bool {
    is_upper(c) || is_lower(c)
}

/// `c` with an ASCII uppercase letter folded to lowercase.
pub open spec fn lower_char(c: char) -> char {
    if is_upper(c) {
        ((c as u8) + 32) as char
    } else {
        c
    }
}

/// `c` with an ASCII lowercase letter raised to uppercase.
pub open spec fn upper_char(c: char) -> char {
    if is_lower(c) {
        ((c as u8) - 32) as char
    } else {
        c
    }
}

/// `s` folded to lowercase, character by character.
pub open spec fn lower_seq(s: Seq<char>) -> Seq<char> {
    Seq::new(s.len(), |i: int| lower_char(s[i]))
}

/// `s` raised to uppercase, character by character.
pub open spec fn upper_seq(s: Seq<char>) -> Seq<char> {
    Seq::new(s.len(), |i: int| upper_char(s[i]))
}

/// A canonical identifier: at least one character, ASCII letters only.
pub open spec fn is_canonical_ident(s: Seq<char>) -> bool {
    &&& s.len() >= 1
    &&& forall|i: int| 0 <= i < s.len() ==> is_letter(#[trigger] s[i])
}

/// The characters of `s` with the separator `sep` inserted before every
/// uppercase letter: the body of a case-boundary scan after its first
/// character.
pub open spec fn expand_tail(s: Seq<char>, sep: char) -> Seq<char>
    decreases s.len(),
{
    if s.len() == 0 {
        Seq::empty()
    } else {
        expand_tail(s.drop_last(), sep) + if is_upper(s.last()) {
            seq![sep, s.last()]
        } else {
            seq![s.last()]
        }
    }
}

/// The label form of an identifier: the first character unchanged, a space
/// before every later uppercase letter, original case preserved.
pub open spec fn label_of(s: Seq<char>) -> Seq<char>
    recommends
        s.len() >= 1,
{
    seq![s[0]] + expand_tail(s.skip(1), ' ')
}

/// The key form of an identifier: an underscore before every later
/// uppercase letter, the whole result folded to lowercase.
pub open spec fn key_of(s: Seq<char>) -> Seq<char>
    recommends
        s.len() >= 1,
{
    lower_seq(seq![s[0]] + expand_tail(s.skip(1), '_'))
}

/// The header form: the uppercased label with a caller-supplied suffix.
pub open spec fn header_of(s: Seq<char>, suffix: Seq<char>) -> Seq<char>
    recommends
        s.len() >= 1,
{
    upper_seq(label_of(s)) + suffix
}

/// The file-name form: the key with a caller-supplied extension.
pub open spec fn file_name_of(s: Seq<char>, ext: Seq<char>) -> Seq<char>
    recommends
        s.len() >= 1,
{
    key_of(s) + ext
}

/// The case-boundary scan for bind identifiers: an underscore in the source
/// is itself a word boundary, emitted as `sep` and discarded; an uppercase
/// letter is emitted behind `sep` as in the plain scan.
pub open spec fn bind_expand_tail(s: Seq<char>, sep: char) -> Seq<char>
    decreases s.len(),
{
    if s.len() == 0 {
        Seq::empty()
    } else {
        bind_expand_tail(s.drop_last(), sep) + if s.last() == '_' {
            seq![sep]
        } else if is_upper(s.last()) {
            seq![sep, s.last()]
        } else {
            seq![s.last()]
        }
    }
}

/// The label form of a bind identifier: underscores and uppercase letters
/// both open a word, separated by a space.
pub open spec fn bind_label_of(s: Seq<char>) -> Seq<char>
    recommends
        s.len() >= 1,
{
    seq![s[0]] + bind_expand_tail(s.skip(1), ' ')
}

/// The key form of a bind identifier: underscores and uppercase letters
/// both open a word, separated by an underscore, folded to lowercase.
pub open spec fn bind_key_of(s: Seq<char>) -> Seq<char>
    recommends
        s.len() >= 1,
{
    lower_seq(seq![s[0]] + bind_expand_tail(s.skip(1), '_'))
}

/// Whether the tail of a separated phrase can be folded back into an
/// identifier: every separator is followed by another character.
pub open spec fn pascal_ok(s: Seq<char>, sep: char) -> bool
    decreases s.len(),
{
    if s.len() == 0 {
        true
    } else if s[0] == sep {
        s.len() >= 2 && pascal_ok(s.skip(2), sep)
    } else {
        pascal_ok(s.skip(1), sep)
    }
}

/// The tail of the inverse transform: a separator is discarded and the
/// character after it raised to uppercase; every other character is kept.
pub open spec fn pascal_tail(s: Seq<char>, sep: char) -> Seq<char>
    decreases s.len(),
{
    if s.len() == 0 {
        Seq::empty()
    } else if s[0] == sep {
        if s.len() == 1 {
            Seq::empty()
        } else {
            seq![upper_char(s[1])] + pascal_tail(s.skip(2), sep)
        }
    } else {
        seq![s[0]] + pascal_tail(s.skip(1), sep)
    }
}

/// The identifier recovered from a `sep`-separated phrase: the first
/// character and every character behind a separator raised to uppercase,
/// the separators discarded.
pub open spec fn pascal_of(s: Seq<char>, sep: char) -> Seq<char>
    recommends
        s.len() >= 1,
        pascal_ok(s.skip(1), sep),
{
    seq![upper_char(s[0])] + pascal_tail(s.skip(1), sep)
}

/// Whether `c` is an ASCII uppercase letter.
pub fn char_is_upper(c: char) -> (r: bool)
    ensures
        r == is_upper(c),
{
    let u = c as u32;
    65 <= u && u <= 90
}

/// `c` folded to lowercase when it is an ASCII uppercase letter.
pub fn char_to_lower(c: char) -> (r: char)
    ensures
        r == lower_char(c),
{
    let u = c as u32;
    if 65 <= u && u <= 90 {
        ((c as u8) + 32) as char
    } else {
        c
    }
}

/// `c` raised to uppercase when it is an ASCII lowercase letter.
pub fn char_to_upper(c: char) -> (r: char)
    ensures
        r == upper_char(c),
{
    let u = c as u32;
    if 97 <= u && u <= 122 {
        ((c as u8) - 32) as char
    } else {
        c
    }
}

/// Runs the case-boundary scan over the characters of `id` after the first,
/// appending to `out`: `sep` is emitted before every uppercase letter.
fn push_expanded_tail(out: &mut String, id: &str, sep: char)
    requires
        id@.len() >= 1,
    ensures
        final(out)@ == old(out)@ + expand_tail(id@.skip(1), sep),
{
    let n = id.unicode_len();
    let mut i: usize = 1;
    let ghost base = out@;
    while i < n
        invariant
            1 <= i <= n,
            n == id@.len(),
            out@ == base + expand_tail(id@.subrange(1, i as int), sep),
        decreases n - i,
    {
        let c = id.get_char(i);
        let ghost before = id@.subrange(1, i as int);
        let ghost after = id@.subrange(1, i + 1 as int);
        proof {
            assert(after.drop_last() =~= before);
            assert(after.last() == id@[i as int]);
        }
        if char_is_upper(c) {
            push_char(out, sep);
        }
        push_char(out, c);
        proof {
            if is_upper(id@[i as int]) {
                assert(base + expand_tail(before, sep) + seq![sep, id@[i as int]] =~= base
                    + expand_tail(after, sep));
            } else {
                assert(base + expand_tail(before, sep) + seq![id@[i as int]] =~= base
                    + expand_tail(after, sep));
            }
        }
        i += 1;
    }
    proof {
        assert(id@.subrange(1, n as int) =~= id@.skip(1));
    }
}

/// The human-readable label of `id`: a space before every uppercase letter
/// after the first character, original case preserved.
pub fn label(id: &str) -> (r: String)
    requires
        id@.len() >= 1,
    ensures
        r@ == label_of(id@),
{
    let mut r = String::new();
    push_char(&mut r, id.get_char(0));
    proof {
        assert(r@ =~= seq![id@[0]]);
    }
    push_expanded_tail(&mut r, id, ' ');
    r
}

/// The config-file key of `id`: an underscore before every uppercase letter
/// after the first character, folded to lowercase.
pub fn key(id: &str) -> (r: String)
    requires
        id@.len() >= 1,
    ensures
        r@ == key_of(id@),
{
    let mut raw = String::new();
    push_char(&mut raw, id.get_char(0));
    proof {
        assert(raw@ =~= seq![id@[0]]);
    }
    push_expanded_tail(&mut raw, id, '_');
    to_lowercase(&raw)
}

/// `s` folded to lowercase, character by character.
pub fn to_lowercase(s: &String) -> (r: String)
    ensures
        r@ == lower_seq(s@),
{
    let n = s.as_str().unicode_len();
    let mut r = String::new();
    let mut i: usize = 0;
    while i < n
        invariant
            i <= n,
            n == s@.len(),
            r@ == lower_seq(s@).take(i as int),
        decreases n - i,
    {
        let c = char_to_lower(s.as_str().get_char(i));
        push_char(&mut r, c);
        proof {
            assert(lower_seq(s@).take(i + 1) =~= lower_seq(s@).take(i as int).push(c));
        }
        i += 1;
    }
    proof {
        assert(lower_seq(s@).take(n as int) =~= lower_seq(s@));
    }
    r
}

/// `s` raised to uppercase, character by character.
pub fn to_uppercase(s: &String) -> (r: String)
    ensures
        r@ == upper_seq(s@),
{
    let n = s.as_str().unicode_len();
    let mut r = String::new();
    let mut i: usize = 0;
    while i < n
        invariant
            i <= n,
            n == s@.len(),
            r@ == upper_seq(s@).take(i as int),
        decreases n - i,
    {
        let c = char_to_upper(s.as_str().get_char(i));
        push_char(&mut r, c);
        proof {
            assert(upper_seq(s@).take(i + 1) =~= upper_seq(s@).take(i as int).push(c));
        }
        i += 1;
    }
    proof {
        assert(upper_seq(s@).take(n as int) =~= upper_seq(s@));
    }
    r
}

/// The header of `id`: its uppercased label with `suffix` appended.
pub fn header(id: &str, suffix: &str) -> (r: String)
    requires
        id@.len() >= 1,
    ensures
        r@ == header_of(id@, suffix@),
{
    let lab = label(id);
    let mut r = to_uppercase(&lab);
    r.append(suffix);
    r
}

/// The icon or document file name of `id`: its key with `ext` appended.
pub fn file_name(id: &str, ext: &str) -> (r: String)
    requires
        id@.len() >= 1,
    ensures
        r@ == file_name_of(id@, ext@),
{
    let mut r = key(id);
    r.append(ext);
    r
}

/// Runs the bind-identifier scan over the characters of `id` after the
/// first, appending to `out`.
fn push_bind_expanded_tail(out: &mut String, id: &str, sep: char)
    requires
        id@.len() >= 1,
    ensures
        final(out)@ == old(out)@ + bind_expand_tail(id@.skip(1), sep),
{
    let n = id.unicode_len();
    let mut i: usize = 1;
    let ghost base = out@;
    while i < n
        invariant
            1 <= i <= n,
            n == id@.len(),
            out@ == base + bind_expand_tail(id@.subrange(1, i as int), sep),
        decreases n - i,
    {
        let c = id.get_char(i);
        let ghost before = id@.subrange(1, i as int);
        let ghost after = id@.subrange(1, i + 1 as int);
        proof {
            assert(after.drop_last() =~= before);
            assert(after.last() == id@[i as int]);
        }
        if c == '_' {
            push_char(out, sep);
            proof {
                assert(base + bind_expand_tail(before, sep) + seq![sep] =~= base
                    + bind_expand_tail(after, sep));
            }
        } else if char_is_upper(c) {
            push_char(out, sep);
            push_char(out, c);
            proof {
                assert(base + bind_expand_tail(before, sep) + seq![sep, id@[i as int]] =~= base
                    + bind_expand_tail(after, sep));
            }
        } else {
            push_char(out, c);
            proof {
                assert(base + bind_expand_tail(before, sep) + seq![id@[i as int]] =~= base
                    + bind_expand_tail(after, sep));
            }
        }
        i += 1;
    }
    proof {
        assert(id@.subrange(1, n as int) =~= id@.skip(1));
    }
}

/// The label of a bind identifier: underscores and case boundaries both
/// become spaces.
pub fn bind_label(id: &str) -> (r: String)
    requires
        id@.len() >= 1,
    ensures
        r@ == bind_label_of(id@),
{
    let mut r = String::new();
    push_char(&mut r, id.get_char(0));
    proof {
        assert(r@ =~= seq![id@[0]]);
    }
    push_bind_expanded_tail(&mut r, id, ' ');
    r
}

/// The key of a bind identifier: underscores and case boundaries both
/// become underscores, folded to lowercase.
pub fn bind_key(id: &str) -> (r: String)
    requires
        id@.len() >= 1,
    ensures
        r@ == bind_key_of(id@),
{
    let mut raw = String::new();
    push_char(&mut raw, id.get_char(0));
    proof {
        assert(raw@ =~= seq![id@[0]]);
    }
    push_bind_expanded_tail(&mut raw, id, '_');
    to_lowercase(&raw)
}

/// Appends the inverse transform of the characters of `id` from `i` on.
fn push_pascal_tail(out: &mut String, id: &str, sep: char, i: usize)
    requires
        i <= id@.len(),
        pascal_ok(id@.skip(i as int), sep),
    ensures
        final(out)@ == old(out)@ + pascal_tail(id@.skip(i as int), sep),
    decreases id@.len() - i,
{
    let n = id.unicode_len();
    if i >= n {
        proof {
            assert(old(out)@ + pascal_tail(id@.skip(i as int), sep) =~= old(out)@);
        }
        return ;
    }
    let c = id.get_char(i);
    let ghost rest = id@.skip(i as int);
    proof {
        assert(rest[0] == id@[i as int]);
    }
    if c == sep {
        proof {
            assert(rest.len() >= 2);
            assert(rest[1] == id@[i + 1]);
            assert(rest.skip(2) =~= id@.skip(i + 2));
        }
        let d = char_to_upper(id.get_char(i + 1));
        let ghost mid = out@;
        push_char(out, d);
        push_pascal_tail(out, id, sep, i + 2);
        proof {
            assert(old(out)@ + pascal_tail(rest, sep) =~= mid.push(d) + pascal_tail(
                id@.skip(i + 2),
                sep,
            ));
        }
    } else {
        proof {
            assert(rest.skip(1) =~= id@.skip(i + 1));
        }
        let ghost mid = out@;
        push_char(out, c);
        push_pascal_tail(out, id, sep, i + 1);
        proof {
            assert(old(out)@ + pascal_tail(rest, sep) =~= mid.push(c) + pascal_tail(
                id@.skip(i + 1),
                sep,
            ));
        }
    }
}

/// `t` with every space replaced by an underscore.
pub open spec fn underscore_spaces(t: Seq<char>) -> Seq<char> {
    Seq::new(t.len(), |i: int| if t[i] == ' ' { '_' } else { t[i] })
}

proof fn lemma_reword_expand(t: Seq<char>, )
    requires
        forall|i: int| 0 <= i < t.len() ==> is_letter(#[trigger] t[i]),
    ensures
        underscore_spaces(lower_seq(expand_tail(t, ' '))) =~= lower_seq(expand_tail(t, '_')),
    decreases t.len(),
{
    if t.len() == 0 {
    } else {
        let d = t.drop_last();
        assert(forall|i: int| 0 <= i < d.len() ==> is_letter(#[trigger] d[i]));
        lemma_reword_expand(d);
        let c = t.last();
        if is_upper(c) {
            assert(underscore_spaces(lower_seq(expand_tail(d, ' ') + seq![' ', c]))
                =~= underscore_spaces(lower_seq(expand_tail(d, ' '))) + seq!['_', lower_char(c)]);
            assert(lower_seq(expand_tail(d, '_') + seq!['_', c]) =~= lower_seq(
                expand_tail(d, '_'),
            ) + seq!['_', lower_char(c)]);
        } else {
            assert(lower_char(c) != ' ');
            assert(underscore_spaces(lower_seq(expand_tail(d, ' ') + seq![c]))
                =~= underscore_spaces(lower_seq(expand_tail(d, ' '))) + seq![lower_char(c)]);
            assert(lower_seq(expand_tail(d, '_') + seq![c]) =~= lower_seq(expand_tail(d, '_'))
                + seq![lower_char(c)]);
        }
    }
}

proof fn lemma_no_upper_expand(t: Seq<char>, sep: char)
    requires
        forall|i: int| 0 <= i < t.len() ==> !is_upper(#[trigger] t[i]),
    ensures
        expand_tail(t, sep) =~= t,
    decreases t.len(),
{
    if t.len() == 0 {
    } else {
        let d = t.drop_last();
        assert(forall|i: int| 0 <= i < d.len() ==> !is_upper(#[trigger] d[i]));
        lemma_no_upper_expand(d, sep);
        assert(expand_tail(t, sep) =~= d + seq![t.last()]);
    }
}

/// Case-transform consistency: lowercasing the label of an identifier,
/// replacing its spaces by underscores, and taking the key of the result
/// reproduces the key of the identifier itself.
pub proof fn lemma_key_label_consistency(s: Seq<char>)
    requires
        is_canonical_ident(s),
    ensures
        key_of(underscore_spaces(lower_seq(label_of(s)))) == key_of(s),
{
    let tail = s.skip(1);
    assert(forall|i: int| 0 <= i < tail.len() ==> is_letter(#[trigger] tail[i]));
    lemma_reword_expand(tail);
    // The lowered, underscored label is exactly the key.
    let relabel = underscore_spaces(lower_seq(label_of(s)));
    assert(relabel =~= key_of(s)) by {
        assert(underscore_spaces(lower_seq(seq![s[0]] + expand_tail(tail, ' '))) =~= seq![
            lower_char(s[0]),
        ] + underscore_spaces(lower_seq(expand_tail(tail, ' '))));
        assert(lower_seq(seq![s[0]] + expand_tail(tail, '_')) =~= seq![lower_char(s[0])]
            + lower_seq(expand_tail(tail, '_')));
    }
    // The key has no uppercase letter, so taking the key again changes
    // nothing.
    let k = key_of(s);
    assert(forall|i: int| 0 <= i < k.len() ==> !is_upper(#[trigger] k[i]));
    assert(k.len() >= 1);
    let ktail = k.skip(1);
    assert(forall|i: int| 0 <= i < ktail.len() ==> !is_upper(#[trigger] ktail[i]));
    lemma_no_upper_expand(ktail, '_');
    assert(key_of(k) =~= k) by {
        assert(seq![k[0]] + ktail =~= k);
        assert(lower_seq(k) =~= k);
    }
}

/// Recovers a canonical identifier from a `sep`-separated phrase: the first
/// character and every character behind a separator are raised to
/// uppercase, the separators discarded.
pub fn pascal(phrase: &str, sep: char) -> (r: String)
    requires
        phrase@.len() >= 1,
        pascal_ok(phrase@.skip(1), sep),
    ensures
        r@ == pascal_of(phrase@, sep),
{
    let mut r = String::new();
    push_char(&mut r, char_to_upper(phrase.get_char(0)));
    proof {
        assert(r@ =~= seq![upper_char(phrase@[0])]);
    }
    push_pascal_tail(&mut r, phrase, sep, 1);
    r
}

} // verus!
