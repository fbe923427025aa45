use vstd::prelude::*;
use crate::text::{ascii_lower, ascii_lower_equals, ascii_lower_seq, trim_chars, trimmed};

verus! {

/// One installed font face, as the font list reports it.
#[derive(Debug, Clone)]
pub struct FontFaceInfo {
    pub family: String,
    pub post_script_name: String,
    pub weight: u16,
    pub style: String,
    pub monospaced: bool,
}

/// The family names that stand for a generic family rather than an installed
/// font (after trimming and ASCII lower-casing).
pub open spec fn is_generic_family_spec(family: Seq<char>) -> bool {
    let name = ascii_lower_seq(trimmed(family));
    ||| name == "sans-serif"@
    ||| name == "sans"@
    ||| name == "serif"@
    ||| name == "monospace"@
    ||| name == "monospaced"@
    ||| name == "cursive"@
    ||| name == "fantasy"@
}

/// Tells whether `family` names a generic CSS-like family.
pub fn is_generic_family(family: &str) -> (r: bool)
    ensures
        r == is_generic_family_spec(family@),
{
    let t = trim_chars(family);
    let s = t.as_slice();
    ascii_lower_equals(s, "sans-serif") || ascii_lower_equals(s, "sans") || ascii_lower_equals(
        s,
        "serif",
    ) || ascii_lower_equals(s, "monospace") || ascii_lower_equals(s, "monospaced")
        || ascii_lower_equals(s, "cursive") || ascii_lower_equals(s, "fantasy")
}

/// Slant of a font face.
#[derive(Debug, Clone, Copy, PartialEq, Eq, Structural)]
pub enum FaceStyle {
    Normal,
    Italic,
    Oblique,
}

/// The name of a face style.
pub open spec fn style_name_spec(style: FaceStyle) -> Seq<char> {
    match style {
        FaceStyle::Normal => "normal"@,
        FaceStyle::Italic => "italic"@,
        FaceStyle::Oblique => "oblique"@,
    }
}

/// The name of a face style: `normal`, `italic` or `oblique`.
pub fn style_name(style: FaceStyle) -> (name: &'static str)
    ensures
        name@ == style_name_spec(style),
{
    match style {
        FaceStyle::Normal => "normal",
        FaceStyle::Italic => "italic",
        FaceStyle::Oblique => "oblique",
    }
}

/// A face of the font database: its family names and attributes.
#[derive(Debug)]
pub struct InstalledFace {
    pub families: Vec<String>,
    pub post_script_name: String,
    pub weight: u16,
    pub style: FaceStyle,
    pub monospaced: bool,
}

/// What a font list entry holds: family, PostScript name, weight, style name
/// and whether the face is monospaced.
pub open spec fn info_view(f: FontFaceInfo) -> (Seq<char>, Seq<char>, u16, Seq<char>, bool) {
    (f.family@, f.post_script_name@, f.weight, f.style@, f.monospaced)
}

/// The entries of one face, one per family name, in order.
pub open spec fn face_entries(f: InstalledFace) -> Seq<(Seq<char>, Seq<char>, u16, Seq<char>, bool)> {
    f.families@.map_values(
        |n: String| (n@, f.post_script_name@, f.weight, style_name_spec(f.style), f.monospaced),
    )
}

/// The entries of all faces, face by face.
pub open spec fn all_entries(faces: Seq<InstalledFace>) -> Seq<
    (Seq<char>, Seq<char>, u16, Seq<char>, bool),
>
    decreases faces.len(),
{
    if faces.len() == 0 {
        seq![]
    } else {
        all_entries(faces.drop_last()) + face_entries(faces.last())
    }
}

/// The Unicode lower-case form of a string, as `str::to_lowercase` gives it.
pub uninterp spec fn lowercase_of(s: Seq<char>) -> Seq<char>;

/// Lower-cases a string with `str::to_lowercase`. Claimed: the result is a
/// function of the characters of `s` alone (which function is not stated).
#[verifier::external_body]
fn unicode_lowercase(s: &str) -> (r: String)
    ensures
        r@ == lowercase_of(s@),
{
    s.to_lowercase()
}

/// The order of an entry in the font list: lower-cased family, weight, style
/// name, PostScript name. Entries with the same key are the same face.
pub open spec fn sort_key(e: (Seq<char>, Seq<char>, u16, Seq<char>, bool)) -> (
    Seq<char>,
    u16,
    Seq<char>,
    Seq<char>,
) {
    (lowercase_of(e.0), e.2, e.3, e.1)
}

/// Lexicographic order of strings by code point (the order of `str` and `String`).
pub open spec fn seq_lt(a: Seq<char>, b: Seq<char>) -> bool
    decreases a.len(),
{
    if b.len() == 0 {
        false
    } else if a.len() == 0 {
        true
    } else if a[0] != b[0] {
        (a[0] as u32) < (b[0] as u32)
    } else {
        seq_lt(a.drop_first(), b.drop_first())
    }
}

/// Lexicographic order of sort keys.
pub open spec fn key_lt(a: (Seq<char>, u16, Seq<char>, Seq<char>), b: (Seq<char>, u16, Seq<char>, Seq<char>)) -> bool {
    ||| seq_lt(a.0, b.0)
    ||| (a.0 == b.0 && a.1 < b.1)
    ||| (a.0 == b.0 && a.1 == b.1 && seq_lt(a.2, b.2))
    ||| (a.0 == b.0 && a.1 == b.1 && a.2 == b.2 && seq_lt(a.3, b.3))
}

proof fn lemma_seq_lt_irreflexive(a: Seq<char>)
    ensures
        !seq_lt(a, a),
    decreases a.len(),
{
    if a.len() > 0 {
        lemma_seq_lt_irreflexive(a.drop_first());
    }
}

proof fn lemma_seq_lt_asymmetric(a: Seq<char>, b: Seq<char>)
    ensures
        seq_lt(a, b) ==> !seq_lt(b, a),
    decreases a.len(),
{
    if a.len() > 0 && b.len() > 0 {
        lemma_seq_lt_asymmetric(a.drop_first(), b.drop_first());
    }
}

proof fn lemma_seq_lt_transitive(a: Seq<char>, b: Seq<char>, c: Seq<char>)
    ensures
        (seq_lt(a, b) && seq_lt(b, c)) ==> seq_lt(a, c),
    decreases a.len(),
{
    if a.len() > 0 && b.len() > 0 && c.len() > 0 {
        lemma_seq_lt_transitive(a.drop_first(), b.drop_first(), c.drop_first());
    }
}

proof fn lemma_seq_lt_total(a: Seq<char>, b: Seq<char>)
    ensures
        a != b ==> (seq_lt(a, b) || seq_lt(b, a)),
    decreases a.len(),
{
    if a.len() == 0 && b.len() == 0 {
        assert(a =~= b);
    } else if a.len() > 0 && b.len() > 0 {
        lemma_seq_lt_total(a.drop_first(), b.drop_first());
        if a[0] == b[0] && a.drop_first() == b.drop_first() {
            assert(a =~= seq![a[0]] + a.drop_first());
            assert(b =~= seq![b[0]] + b.drop_first());
        }
        if a[0] != b[0] {
            vstd::utf8::char_u32_cast(a[0], a[0] as u32);
            vstd::utf8::char_u32_cast(b[0], b[0] as u32);
            assert((a[0] as u32) != (b[0] as u32));
        }
    }
}

/// `seq_lt` is a strict total order.
pub proof fn lemma_seq_lt_order(a: Seq<char>, b: Seq<char>, c: Seq<char>)
    ensures
        !seq_lt(a, a),
        seq_lt(a, b) ==> !seq_lt(b, a),
        (seq_lt(a, b) && seq_lt(b, c)) ==> seq_lt(a, c),
        a != b ==> (seq_lt(a, b) || seq_lt(b, a)),
{
    lemma_seq_lt_irreflexive(a);
    lemma_seq_lt_asymmetric(a, b);
    lemma_seq_lt_transitive(a, b, c);
    lemma_seq_lt_total(a, b);
}

/// `key_lt` is a strict total order.
pub proof fn lemma_key_lt_order(
    a: (Seq<char>, u16, Seq<char>, Seq<char>),
    b: (Seq<char>, u16, Seq<char>, Seq<char>),
    c: (Seq<char>, u16, Seq<char>, Seq<char>),
)
    ensures
        !key_lt(a, a),
        key_lt(a, b) ==> !key_lt(b, a),
        (key_lt(a, b) && key_lt(b, c)) ==> key_lt(a, c),
        a != b ==> (key_lt(a, b) || key_lt(b, a)),
{
    lemma_seq_lt_order(a.0, b.0, c.0);
    lemma_seq_lt_order(a.2, b.2, c.2);
    lemma_seq_lt_order(a.3, b.3, c.3);
    lemma_seq_lt_order(b.0, a.0, c.0);
    lemma_seq_lt_order(b.2, a.2, c.2);
    lemma_seq_lt_order(b.3, a.3, c.3);
}

/// How two strings or keys compare.
#[derive(Debug, Clone, Copy, PartialEq, Eq, Structural)]
pub enum KeyOrder {
    Less,
    Equal,
    Greater,
}

proof fn lemma_seq_lt_step(a: Seq<char>, b: Seq<char>, i: int)
    requires
        0 <= i < a.len(),
        i < b.len(),
        a[i] == b[i],
    ensures
        seq_lt(a.skip(i), b.skip(i)) == seq_lt(a.skip(i + 1), b.skip(i + 1)),
{
    assert(a.skip(i).drop_first() =~= a.skip(i + 1));
    assert(b.skip(i).drop_first() =~= b.skip(i + 1));
}

/// Compares two strings by code point.
pub fn compare_str(a: &str, b: &str) -> (o: KeyOrder)
    ensures
        (o == KeyOrder::Equal) == (a@ == b@),
        (o == KeyOrder::Less) == seq_lt(a@, b@),
        (o == KeyOrder::Greater) == seq_lt(b@, a@),
{
    proof {
        lemma_seq_lt_order(a@, b@, b@);
    }
    let n = a.unicode_len();
    let m = b.unicode_len();
    let mut i: usize = 0;
    assert(a@.skip(0) =~= a@ && b@.skip(0) =~= b@);
    while i < n && i < m
        invariant
            n == a@.len(),
            m == b@.len(),
            i <= n,
            i <= m,
            a@.take(i as int) =~= b@.take(i as int),
            seq_lt(a@, b@) == seq_lt(a@.skip(i as int), b@.skip(i as int)),
            seq_lt(b@, a@) == seq_lt(b@.skip(i as int), a@.skip(i as int)),
        decreases n - i,
    {
        let x = a.get_char(i);
        let y = b.get_char(i);
        if x != y {
            assert(a@.skip(i as int)[0] == x && b@.skip(i as int)[0] == y);
            proof {
                lemma_seq_lt_order(a@, b@, b@);
            }
            assert(a@ != b@) by {
                if a@ == b@ {
                    assert(a@[i as int] == b@[i as int]);
                }
            }
            if (x as u32) < (y as u32) {
                return KeyOrder::Less;
            } else {
                return KeyOrder::Greater;
            }
        }
        proof {
            lemma_seq_lt_step(a@, b@, i as int);
            lemma_seq_lt_step(b@, a@, i as int);
            assert(a@.take(i + 1) =~= a@.take(i as int).push(x));
            assert(b@.take(i + 1) =~= b@.take(i as int).push(y));
        }
        i += 1;
    }
    proof {
        lemma_seq_lt_order(a@, b@, b@);
    }
    if n == m {
        assert(a@ =~= a@.take(i as int));
        assert(b@ =~= b@.take(i as int));
        KeyOrder::Equal
    } else if n < m {
        assert(a@.skip(i as int).len() == 0 && b@.skip(i as int).len() > 0);
        assert(a@ != b@);
        KeyOrder::Less
    } else {
        assert(b@.skip(i as int).len() == 0 && a@.skip(i as int).len() > 0);
        assert(a@ != b@);
        KeyOrder::Greater
    }
}

/// Compares two entries by their sort keys, given their lower-cased families.
fn compare_entry(a_lower: &str, a: &FontFaceInfo, b_lower: &str, b: &FontFaceInfo) -> (o: KeyOrder)
    requires
        a_lower@ == lowercase_of(a.family@),
        b_lower@ == lowercase_of(b.family@),
    ensures
        (o == KeyOrder::Equal) == (sort_key(info_view(*a)) == sort_key(info_view(*b))),
        (o == KeyOrder::Less) == key_lt(sort_key(info_view(*a)), sort_key(info_view(*b))),
        (o == KeyOrder::Greater) == key_lt(sort_key(info_view(*b)), sort_key(info_view(*a))),
{
    proof {
        lemma_key_lt_order(sort_key(info_view(*a)), sort_key(info_view(*b)), sort_key(info_view(*b)));
    }
    let o = compare_str(a_lower, b_lower);
    if o != KeyOrder::Equal {
        return o;
    }
    if a.weight < b.weight {
        return KeyOrder::Less;
    }
    if a.weight > b.weight {
        return KeyOrder::Greater;
    }
    let o = compare_str(a.style.as_str(), b.style.as_str());
    if o != KeyOrder::Equal {
        return o;
    }
    compare_str(a.post_script_name.as_str(), b.post_script_name.as_str())
}

/// `s` is strictly increasing by sort key.
pub open spec fn strictly_sorted(s: Seq<(Seq<char>, Seq<char>, u16, Seq<char>, bool)>) -> bool {
    forall|p: int, q: int| 0 <= p < q < s.len() ==> key_lt(#[trigger] sort_key(s[p]), #[trigger] sort_key(s[q]))
}

/// `e[k]` is the first entry with its sort key.
pub open spec fn first_with_key(e: Seq<(Seq<char>, Seq<char>, u16, Seq<char>, bool)>, k: int) -> bool {
    &&& 0 <= k < e.len()
    &&& forall|m: int| 0 <= m < k ==> sort_key(#[trigger] e[m]) != sort_key(e[k])
}

/// `out[q]` is the first entry of `e` with its key.
pub open spec fn taken_from_first(
    out: Seq<(Seq<char>, Seq<char>, u16, Seq<char>, bool)>,
    e: Seq<(Seq<char>, Seq<char>, u16, Seq<char>, bool)>,
    q: int,
) -> bool {
    exists|k: int| #![trigger e[k]] first_with_key(e, k) && out[q] == e[k]
}

/// Some element of `out` has the sort key of `x`.
pub open spec fn key_listed(
    out: Seq<(Seq<char>, Seq<char>, u16, Seq<char>, bool)>,
    x: (Seq<char>, Seq<char>, u16, Seq<char>, bool),
) -> bool {
    exists|q: int| #![trigger out[q]] 0 <= q < out.len() && sort_key(out[q]) == sort_key(x)
}

/// The font list of a sequence of entries: strictly sorted by key, each
/// element the first entry with its key, every key of the entries present.
pub open spec fn is_font_list_of(
    out: Seq<(Seq<char>, Seq<char>, u16, Seq<char>, bool)>,
    e: Seq<(Seq<char>, Seq<char>, u16, Seq<char>, bool)>,
) -> bool {
    &&& strictly_sorted(out)
    &&& forall|q: int| 0 <= q < out.len() ==> #[trigger] taken_from_first(out, e, q)
    &&& forall|k: int| 0 <= k < e.len() ==> #[trigger] key_listed(out, e[k])
}

/// The entries of a font list.
pub open spec fn views(s: Seq<FontFaceInfo>) -> Seq<(Seq<char>, Seq<char>, u16, Seq<char>, bool)> {
    s.map_values(|f: FontFaceInfo| info_view(f))
}

/// `lowers` holds the lower-cased family of each entry of `out`.
pub open spec fn lowers_match(out: Seq<FontFaceInfo>, lowers: Seq<String>) -> bool {
    &&& out.len() == lowers.len()
    &&& forall|q: int| 0 <= q < out.len() ==> (#[trigger] lowers[q])@ == lowercase_of(out[q].family@)
}

fn make_info(family: &String, face: &InstalledFace) -> (f: FontFaceInfo)
    ensures
        info_view(f) == (
            family@,
            face.post_script_name@,
            face.weight,
            style_name_spec(face.style),
            face.monospaced,
        ),
{
    FontFaceInfo {
        family: String::from_str(family.as_str()),
        post_script_name: String::from_str(face.post_script_name.as_str()),
        weight: face.weight,
        style: String::from_str(style_name(face.style)),
        monospaced: face.monospaced,
    }
}

/// Where an entry belongs in a sorted list, and whether its key is there.
fn find_slot(out: &Vec<FontFaceInfo>, lowers: &Vec<String>, info: &FontFaceInfo, lower: &String) -> (r: (usize, bool))
    requires
        lowers_match(out@, lowers@),
        lower@ == lowercase_of(info.family@),
    ensures
        r.0 <= out@.len(),
        forall|q: int| 0 <= q < r.0 ==> key_lt(#[trigger] sort_key(views(out@)[q]), sort_key(info_view(*info))),
        r.1 ==> r.0 < out@.len() && sort_key(views(out@)[r.0 as int]) == sort_key(info_view(*info)),
        !r.1 ==> (r.0 == out@.len() || key_lt(sort_key(info_view(*info)), sort_key(views(out@)[r.0 as int]))),
{
    let mut pos: usize = 0;
    while pos < out.len()
        invariant
            pos <= out@.len(),
            lowers_match(out@, lowers@),
            lower@ == lowercase_of(info.family@),
            forall|q: int| 0 <= q < pos ==> key_lt(#[trigger] sort_key(views(out@)[q]), sort_key(info_view(*info))),
        decreases out@.len() - pos,
    {
        assert(lowers@[pos as int]@ == lowercase_of(out@[pos as int].family@));
        let o = compare_entry(lowers[pos].as_str(), &out[pos], lower.as_str(), info);
        assert(views(out@)[pos as int] == info_view(out@[pos as int]));
        match o {
            KeyOrder::Equal => {
                return (pos, true);
            },
            KeyOrder::Greater => {
                return (pos, false);
            },
            KeyOrder::Less => {
                pos += 1;
            },
        }
    }
    (pos, false)
}

/// The state of a font list under construction: `out` is sorted, `idx[q]`
/// is the entry that `out[q]` was taken from (the first with its key), and
/// `at[k]` is where the key of entry `k` sits in `out`.
pub open spec fn list_state(
    out: Seq<(Seq<char>, Seq<char>, u16, Seq<char>, bool)>,
    e: Seq<(Seq<char>, Seq<char>, u16, Seq<char>, bool)>,
    idx: Seq<int>,
    at: Seq<int>,
) -> bool {
    &&& strictly_sorted(out)
    &&& idx.len() == out.len()
    &&& forall|q: int| 0 <= q < out.len() ==> first_with_key(e, #[trigger] idx[q]) && out[q] == e[idx[q]]
    &&& at.len() == e.len()
    &&& forall|k: int|
        0 <= k < e.len() ==> 0 <= #[trigger] at[k] < out.len() && sort_key(out[at[k]]) == sort_key(e[k])
}

proof fn lemma_list_insert_sorted(
    old_views: Seq<(Seq<char>, Seq<char>, u16, Seq<char>, bool)>,
    v: (Seq<char>, Seq<char>, u16, Seq<char>, bool),
    pos: int,
)
    requires
        strictly_sorted(old_views),
        0 <= pos <= old_views.len(),
        forall|q: int| 0 <= q < pos ==> key_lt(#[trigger] sort_key(old_views[q]), sort_key(v)),
        pos == old_views.len() || key_lt(sort_key(v), sort_key(old_views[pos])),
    ensures
        strictly_sorted(old_views.insert(pos, v)),
        forall|q: int| 0 <= q < old_views.len() ==> sort_key(#[trigger] old_views[q]) != sort_key(v),
{
    let nv = old_views.insert(pos, v);
    assert forall|q: int| 0 <= q < old_views.len() implies sort_key(#[trigger] old_views[q]) != sort_key(v) by {
        lemma_key_lt_order(sort_key(old_views[q]), sort_key(v), sort_key(v));
        if q > pos {
            assert(key_lt(sort_key(old_views[pos]), sort_key(old_views[q])));
            lemma_key_lt_order(sort_key(v), sort_key(old_views[pos]), sort_key(old_views[q]));
        }
    }
    assert forall|p: int, q: int| 0 <= p < q < nv.len() implies key_lt(
        #[trigger] sort_key(nv[p]),
        #[trigger] sort_key(nv[q]),
    ) by {
        if p == pos {
            if q > pos + 1 {
                assert(key_lt(sort_key(old_views[pos]), sort_key(old_views[q - 1])));
                lemma_key_lt_order(sort_key(v), sort_key(old_views[pos]), sort_key(old_views[q - 1]));
            }
        } else if q == pos {
            assert(nv[p] == old_views[p]);
        } else if p > pos {
            assert(key_lt(sort_key(old_views[p - 1]), sort_key(old_views[q - 1])));
        } else if q > pos {
            assert(key_lt(sort_key(old_views[p]), sort_key(old_views[q - 1])));
        } else {
            assert(key_lt(sort_key(old_views[p]), sort_key(old_views[q])));
        }
    }
}

proof fn lemma_first_with_key_push(
    e: Seq<(Seq<char>, Seq<char>, u16, Seq<char>, bool)>,
    v: (Seq<char>, Seq<char>, u16, Seq<char>, bool),
    k: int,
)
    requires
        first_with_key(e, k),
    ensures
        first_with_key(e.push(v), k),
{
    let e2 = e.push(v);
    assert forall|m: int| 0 <= m < k implies sort_key(#[trigger] e2[m]) != sort_key(e2[k]) by {
        assert(e2[m] == e[m]);
    }
}

proof fn lemma_state_keep(
    out: Seq<(Seq<char>, Seq<char>, u16, Seq<char>, bool)>,
    e: Seq<(Seq<char>, Seq<char>, u16, Seq<char>, bool)>,
    idx: Seq<int>,
    at: Seq<int>,
    v: (Seq<char>, Seq<char>, u16, Seq<char>, bool),
    pos: int,
)
    requires
        list_state(out, e, idx, at),
        0 <= pos < out.len(),
        sort_key(out[pos]) == sort_key(v),
    ensures
        list_state(out, e.push(v), idx, at.push(pos)),
{
    let e2 = e.push(v);
    let at2 = at.push(pos);
    assert forall|q: int| 0 <= q < out.len() implies first_with_key(e2, #[trigger] idx[q]) && out[q]
        == e2[idx[q]] by {
        lemma_first_with_key_push(e, v, idx[q]);
    }
    assert forall|k: int| 0 <= k < e2.len() implies 0 <= #[trigger] at2[k] < out.len() && sort_key(
        out[at2[k]],
    ) == sort_key(e2[k]) by {
        if k < e.len() {
            assert(at2[k] == at[k]);
        }
    }
}

proof fn lemma_state_insert(
    out: Seq<(Seq<char>, Seq<char>, u16, Seq<char>, bool)>,
    e: Seq<(Seq<char>, Seq<char>, u16, Seq<char>, bool)>,
    idx: Seq<int>,
    at: Seq<int>,
    v: (Seq<char>, Seq<char>, u16, Seq<char>, bool),
    pos: int,
)
    requires
        list_state(out, e, idx, at),
        0 <= pos <= out.len(),
        forall|q: int| 0 <= q < pos ==> key_lt(#[trigger] sort_key(out[q]), sort_key(v)),
        pos == out.len() || key_lt(sort_key(v), sort_key(out[pos])),
    ensures
        list_state(
            out.insert(pos, v),
            e.push(v),
            idx.insert(pos, e.len() as int),
            Seq::new(at.len(), |k: int| if at[k] >= pos { at[k] + 1 } else { at[k] }).push(pos),
        ),
{
    lemma_list_insert_sorted(out, v, pos);
    let out2 = out.insert(pos, v);
    let e2 = e.push(v);
    let idx2 = idx.insert(pos, e.len() as int);
    let at2 = Seq::new(at.len(), |k: int| if at[k] >= pos { at[k] + 1 } else { at[k] }).push(pos);
    assert(first_with_key(e2, e.len() as int)) by {
        assert forall|m: int| 0 <= m < e.len() implies sort_key(#[trigger] e2[m]) != sort_key(
            e2[e.len() as int],
        ) by {
            assert(e2[m] == e[m]);
            assert(sort_key(out[at[m]]) == sort_key(e[m]));
            assert(sort_key(out[at[m]]) != sort_key(v));
        }
    }
    assert forall|q: int| 0 <= q < out2.len() implies first_with_key(e2, #[trigger] idx2[q]) && out2[q]
        == e2[idx2[q]] by {
        if q < pos {
            assert(idx2[q] == idx[q]);
            lemma_first_with_key_push(e, v, idx[q]);
        } else if q > pos {
            assert(idx2[q] == idx[q - 1]);
            lemma_first_with_key_push(e, v, idx[q - 1]);
        }
    }
    assert forall|k: int| 0 <= k < e2.len() implies 0 <= #[trigger] at2[k] < out2.len() && sort_key(
        out2[at2[k]],
    ) == sort_key(e2[k]) by {
        if k < e.len() {
            assert(e2[k] == e[k]);
            assert(0 <= at[k] < out.len());
            if at[k] >= pos {
                assert(out2[at[k] + 1] == out[at[k]]);
            } else {
                assert(out2[at[k]] == out[at[k]]);
            }
        }
    }
}

proof fn lemma_state_is_font_list(
    out: Seq<(Seq<char>, Seq<char>, u16, Seq<char>, bool)>,
    e: Seq<(Seq<char>, Seq<char>, u16, Seq<char>, bool)>,
    idx: Seq<int>,
    at: Seq<int>,
)
    requires
        list_state(out, e, idx, at),
    ensures
        is_font_list_of(out, e),
{
    assert forall|q: int| 0 <= q < out.len() implies #[trigger] taken_from_first(out, e, q) by {
        let k = idx[q];
        assert(first_with_key(e, k) && out[q] == e[k]);
    }
    assert forall|k: int| 0 <= k < e.len() implies #[trigger] key_listed(out, e[k]) by {
        let q = at[k];
        assert(0 <= q < out.len() && sort_key(out[q]) == sort_key(e[k]));
    }
}

/// The font list of the faces: one entry per distinct (lower-cased family,
/// PostScript name, weight, style), the first met, sorted by lower-cased
/// family, weight, style name and PostScript name.
pub fn font_list_from_faces(faces: &[InstalledFace]) -> (fonts: Vec<FontFaceInfo>)
    ensures
        is_font_list_of(views(fonts@), all_entries(faces@)),
{
    let mut out: Vec<FontFaceInfo> = Vec::new();
    let mut lowers: Vec<String> = Vec::new();
    let ghost mut idx: Seq<int> = seq![];
    let ghost mut at: Seq<int> = seq![];
    let mut i: usize = 0;
    assert(all_entries(faces@.take(0)) =~= seq![]);
    assert(views(out@) =~= seq![]);
    while i < faces.len()
        invariant
            i <= faces@.len(),
            lowers_match(out@, lowers@),
            list_state(views(out@), all_entries(faces@.take(i as int)), idx, at),
        decreases faces@.len() - i,
    {
        let face = &faces[i];
        let ghost before = all_entries(faces@.take(i as int));
        let mut j: usize = 0;
        assert(before + face_entries(*face).take(0) =~= before);
        while j < face.families.len()
            invariant
                i < faces@.len(),
                *face == faces@[i as int],
                j <= face.families@.len(),
                before == all_entries(faces@.take(i as int)),
                lowers_match(out@, lowers@),
                list_state(views(out@), before + face_entries(*face).take(j as int), idx, at),
            decreases face.families@.len() - j,
        {
            let fam = &face.families[j];
            let info = make_info(fam, face);
            let lower = unicode_lowercase(fam.as_str());
            let ghost cur = before + face_entries(*face).take(j as int);
            let ghost v = info_view(info);
            let ghost old_views = views(out@);
            let ghost old_lowers = lowers@;
            let ghost old_out = out@;
            proof {
                assert(face_entries(*face)[j as int] == v);
                assert(cur.push(v) =~= before + face_entries(*face).take(j + 1));
            }
            let (pos, found) = find_slot(&out, &lowers, &info, &lower);
            if found {
                proof {
                    lemma_state_keep(old_views, cur, idx, at, v, pos as int);
                    at = at.push(pos as int);
                }
            } else {
                proof {
                    lemma_state_insert(old_views, cur, idx, at, v, pos as int);
                    idx = idx.insert(pos as int, cur.len() as int);
                    at = Seq::new(at.len(), |k: int| if at[k] >= pos { at[k] + 1 } else { at[k] }).push(
                        pos as int,
                    );
                }
                out.insert(pos, info);
                lowers.insert(pos, lower);
                proof {
                    assert(views(out@) =~= old_views.insert(pos as int, v));
                    assert forall|q: int| 0 <= q < out@.len() implies (#[trigger] lowers@[q])@
                        == lowercase_of(out@[q].family@) by {
                        if q > pos {
                            assert(lowers@[q] == old_lowers[q - 1]);
                            assert(out@[q] == old_out[q - 1]);
                        } else if q < pos {
                            assert(lowers@[q] == old_lowers[q]);
                            assert(out@[q] == old_out[q]);
                        }
                    }
                }
            }
            j += 1;
        }
        proof {
            assert(faces@.take(i + 1).drop_last() =~= faces@.take(i as int));
            assert(faces@.take(i + 1).last() == *face);
            assert(face_entries(*face).take(j as int) =~= face_entries(*face));
        }
        i += 1;
    }
    assert(faces@.take(faces@.len() as int) =~= faces@);
    proof {
        lemma_state_is_font_list(views(out@), all_entries(faces@), idx, at);
    }
    out
}

/// Reads the faces of the installed fonts with `cosmic_text::FontSystem::new`
/// and `fontdb::Database::faces`, converting each face to its family names,
/// PostScript name, weight, style and monospace flag. Nothing is claimed of
/// the result: it depends on the fonts installed on the machine.
#[verifier::external_body]
fn installed_faces() -> (faces: Vec<InstalledFace>) {
    let font_system = cosmic_text::FontSystem::new();
    font_system.db().faces().map(|face| InstalledFace {
        families: face.families.iter().map(|(name, _)| name.clone()).collect(),
        post_script_name: face.post_script_name.clone(),
        weight: face.weight.0,
        style: match face.style {
            cosmic_text::fontdb::Style::Normal => FaceStyle::Normal,
            cosmic_text::fontdb::Style::Italic => FaceStyle::Italic,
            cosmic_text::fontdb::Style::Oblique => FaceStyle::Oblique,
        },
        monospaced: face.monospaced,
    }).collect()
}

/// The installed fonts, deduplicated and sorted as [`font_list_from_faces`]
/// states: whatever faces the machine has, the list is the font list of those
/// faces, and so strictly sorted by key.
pub fn list_system_fonts() -> (fonts: Vec<FontFaceInfo>)
    ensures
        exists|faces: Seq<InstalledFace>| is_font_list_of(views(fonts@), all_entries(faces)),
        strictly_sorted(views(fonts@)),
{
    let faces = installed_faces();
    let fonts = font_list_from_faces(faces.as_slice());
    assert(is_font_list_of(views(fonts@), all_entries(faces@)));
    fonts
}

/// Two strings are equal once ASCII letters are lower-cased.
pub fn eq_ignore_ascii_case(a: &str, b: &[char]) -> (r: bool)
    ensures
        r == (ascii_lower_seq(a@) == ascii_lower_seq(b@)),
{
    let n = a.unicode_len();
    if n != b.len() {
        assert(ascii_lower_seq(a@).len() != ascii_lower_seq(b@).len());
        return false;
    }
    let mut i: usize = 0;
    while i < n
        invariant
            n == a@.len(),
            n == b@.len(),
            i <= n,
            forall|j: int| 0 <= j < i ==> ascii_lower(#[trigger] a@[j]) == ascii_lower(b@[j]),
        decreases n - i,
    {
        if !ascii_lower_char_eq(a.get_char(i), b[i]) {
            assert(ascii_lower_seq(a@)[i as int] != ascii_lower_seq(b@)[i as int]);
            return false;
        }
        i += 1;
    }
    assert(ascii_lower_seq(a@) =~= ascii_lower_seq(b@));
    true
}

fn ascii_lower_char_eq(x: char, y: char) -> (r: bool)
    ensures
        r == (ascii_lower(x) == ascii_lower(y)),
{
    let xu = x as u32;
    let yu = y as u32;
    let xl = if 65 <= xu && xu <= 90 { xu + 32 } else { xu };
    let yl = if 65 <= yu && yu <= 90 { yu + 32 } else { yu };
    proof {
        vstd::utf8::char_u32_cast(x, xu);
        vstd::utf8::char_u32_cast(y, yu);
        vstd::utf8::char_u32_cast(ascii_lower(x), ascii_lower(x) as u32);
        vstd::utf8::char_u32_cast(ascii_lower(y), ascii_lower(y) as u32);
    }
    xl == yl
}

/// Some family name of `face` equals `needle` up to ASCII case.
pub open spec fn face_has_family(face: InstalledFace, needle: Seq<char>) -> bool {
    exists|j: int|
        0 <= j < face.families@.len() && ascii_lower_seq(#[trigger] face.families@[j]@) == ascii_lower_seq(
            needle,
        )
}

/// Some face has a family name equal to `needle` up to ASCII case.
pub fn faces_have_family(faces: &[InstalledFace], needle: &[char]) -> (r: bool)
    ensures
        r == exists|i: int| 0 <= i < faces@.len() && face_has_family(#[trigger] faces@[i], needle@),
{
    let mut i: usize = 0;
    while i < faces.len()
        invariant
            i <= faces@.len(),
            forall|k: int| 0 <= k < i ==> !face_has_family(#[trigger] faces@[k], needle@),
        decreases faces@.len() - i,
    {
        let face = &faces[i];
        let mut j: usize = 0;
        while j < face.families.len()
            invariant
                i < faces@.len(),
                *face == faces@[i as int],
                j <= face.families@.len(),
                forall|m: int|
                    0 <= m < j ==> ascii_lower_seq(#[trigger] face.families@[m]@) != ascii_lower_seq(
                        needle@,
                    ),
            decreases face.families@.len() - j,
        {
            if eq_ignore_ascii_case(face.families[j].as_str(), needle) {
                assert(face_has_family(faces@[i as int], needle@));
                return true;
            }
            j += 1;
        }
        i += 1;
    }
    false
}

/// Tells whether a font family can be used: a blank or generic family always
/// can; any other is looked up, trimmed and up to ASCII case, among the
/// installed faces.
pub fn system_has_family(family: &str) -> (r: bool)
    ensures
        (trimmed(family@).len() == 0 || is_generic_family_spec(family@)) ==> r,
{
    let needle = trim_chars(family);
    if needle.len() == 0 || is_generic_family(family) {
        return true;
    }
    let faces = installed_faces();
    faces_have_family(faces.as_slice(), needle.as_slice())
}

/// No two entries of a font list are the same face: their keys differ.
pub proof fn law_font_list_keys_distinct(
    out: Seq<(Seq<char>, Seq<char>, u16, Seq<char>, bool)>,
    e: Seq<(Seq<char>, Seq<char>, u16, Seq<char>, bool)>,
    p: int,
    q: int,
)
    requires
        is_font_list_of(out, e),
        0 <= p < out.len(),
        0 <= q < out.len(),
        p != q,
    ensures
        sort_key(out[p]) != sort_key(out[q]),
{
    if p < q {
        assert(key_lt(sort_key(out[p]), sort_key(out[q])));
        lemma_key_lt_order(sort_key(out[p]), sort_key(out[q]), sort_key(out[q]));
    } else {
        assert(key_lt(sort_key(out[q]), sort_key(out[p])));
        lemma_key_lt_order(sort_key(out[q]), sort_key(out[p]), sort_key(out[p]));
    }
}

/// A generic font family.
#[derive(Debug, Clone, Copy, PartialEq, Eq, Structural)]
pub enum GenericFamily {
    SansSerif,
    Serif,
    Monospace,
    Cursive,
    Fantasy,
}

/// The generic family a text block's family name stands for, once trimmed
/// and lower-cased in ASCII: an empty name means sans-serif; `None` for the
/// name of an installed family.
pub open spec fn generic_family_spec(family: Seq<char>) -> Option<GenericFamily> {
    let name = ascii_lower_seq(trimmed(family));
    if name == ""@ || name == "sans"@ || name == "sans-serif"@ {
        Some(GenericFamily::SansSerif)
    } else if name == "serif"@ {
        Some(GenericFamily::Serif)
    } else if name == "monospace"@ || name == "monospaced"@ {
        Some(GenericFamily::Monospace)
    } else if name == "cursive"@ {
        Some(GenericFamily::Cursive)
    } else if name == "fantasy"@ {
        Some(GenericFamily::Fantasy)
    } else {
        None
    }
}

/// Maps a text block's family name to a generic family, if it names one.
pub fn generic_family(family: &str) -> (r: Option<GenericFamily>)
    ensures
        r == generic_family_spec(family@),
{
    let t = trim_chars(family);
    let s = t.as_slice();
    if ascii_lower_equals(s, "") || ascii_lower_equals(s, "sans") || ascii_lower_equals(s, "sans-serif") {
        Some(GenericFamily::SansSerif)
    } else if ascii_lower_equals(s, "serif") {
        Some(GenericFamily::Serif)
    } else if ascii_lower_equals(s, "monospace") || ascii_lower_equals(s, "monospaced") {
        Some(GenericFamily::Monospace)
    } else if ascii_lower_equals(s, "cursive") {
        Some(GenericFamily::Cursive)
    } else if ascii_lower_equals(s, "fantasy") {
        Some(GenericFamily::Fantasy)
    } else {
        None
    }
}

/// Every name that [`is_generic_family`] accepts as generic maps to a generic
/// family, and so does the empty name; every other name maps to none. Each
/// CSS generic name (`sans-serif` and its short form `sans`, `serif`,
/// `monospace` and `monospaced`, `cursive`, `fantasy`), in any ASCII case and
/// with surrounding whitespace, maps to the family it names, and the empty
/// name to sans-serif, the default.
pub proof fn law_generic_names_map_to_their_families(family: Seq<char>)
    ensures
        is_generic_family_spec(family) ==> generic_family_spec(family) is Some,
        generic_family_spec(family) is Some <==> (is_generic_family_spec(family) || trimmed(family).len()
            == 0),
        (ascii_lower_seq(trimmed(family)) == "sans-serif"@ || ascii_lower_seq(trimmed(family)) == "sans"@
            || trimmed(family).len() == 0) ==> generic_family_spec(family) == Some(GenericFamily::SansSerif),
        ascii_lower_seq(trimmed(family)) == "serif"@ ==> generic_family_spec(family) == Some(
            GenericFamily::Serif,
        ),
        (ascii_lower_seq(trimmed(family)) == "monospace"@ || ascii_lower_seq(trimmed(family))
            == "monospaced"@) ==> generic_family_spec(family) == Some(GenericFamily::Monospace),
        ascii_lower_seq(trimmed(family)) == "cursive"@ ==> generic_family_spec(family) == Some(
            GenericFamily::Cursive,
        ),
        ascii_lower_seq(trimmed(family)) == "fantasy"@ ==> generic_family_spec(family) == Some(
            GenericFamily::Fantasy,
        ),
{
    reveal_strlit("");
    reveal_strlit("sans");
    reveal_strlit("sans-serif");
    reveal_strlit("serif");
    reveal_strlit("monospace");
    reveal_strlit("monospaced");
    reveal_strlit("cursive");
    reveal_strlit("fantasy");
    let name = ascii_lower_seq(trimmed(family));
    assert(name.len() == trimmed(family).len());
    if trimmed(family).len() == 0 {
        assert(name =~= ""@);
    }
    if name == ""@ {
        assert(trimmed(family).len() == 0);
    }
    if name.len() == 9 || name.len() == 10 || name.len() == 7 {
        assert(name != ""@ && name != "sans"@ && name != "serif"@);
        if name.len() == 10 {
            if name == "monospaced"@ {
                assert(name[0] != "sans-serif"@[0]);
            }
        }
        if name.len() == 7 {
            if name == "fantasy"@ {
                assert(name[0] != "cursive"@[0]);
            }
        }
    }
}

} // verus!
