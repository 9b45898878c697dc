//! Laws of the patch engine and the compositor, proved over their
//! specifications: serialization round trips, set/remove interaction,
//! idempotence, removal to emptiness, and the reversed-modifier swap.

use vstd::prelude::*;
use crate::cell::{Cell, Modifier};
use crate::color::to_rgb_spec;
use crate::patch::{
    apply_remove_spec, apply_set_spec, build_pair_spec, build_style_spec, parse_decl_spec,
    parse_style_spec, remove_style_spec, update_style_spec,
};
use crate::style::{bg_value_spec, compose_pairs_spec, fg_value_spec, rgb_value_spec};
use crate::text::{
    find_char, is_space_char, key_matches, lemma_find_char, lemma_find_char_at,
    lemma_find_char_none, lemma_trim_end_keep, lemma_trim_excludes, lemma_trim_keep,
    lemma_trim_no_space_ends, lemma_trim_start_keep, trim_spec, trim_start_spec,
};

verus! {

/// A property name as the engine itself serializes it: nonempty, no
/// surrounding whitespace, and free of the statement and name/value
/// separators.
pub open spec fn clean_key(k: Seq<char>) -> bool {
    &&& k.len() > 0
    &&& !is_space_char(k[0])
    &&& !is_space_char(k[k.len() - 1])
    &&& forall|i: int| 0 <= i < k.len() ==> k[i] != ';' && k[i] != ':'
}

/// A property value as the engine itself serializes it: nonempty, no
/// surrounding whitespace, and free of the statement separator.
pub open spec fn clean_value(v: Seq<char>) -> bool {
    &&& v.len() > 0
    &&& !is_space_char(v[0])
    &&& !is_space_char(v[v.len() - 1])
    &&& forall|i: int| 0 <= i < v.len() ==> v[i] != ';'
}

/// Every pair of the list is clean.
pub open spec fn clean_pairs(ps: Seq<(Seq<char>, Seq<char>)>) -> bool {
    forall|i: int|
        0 <= i < ps.len() ==> clean_key(#[trigger] ps[i].0) && clean_value(ps[i].1)
}

/// What one statement parses to is clean, provided the statement holds no
/// statement separator (as a split segment never does).
proof fn lemma_parse_decl_clean(seg: Seq<char>)
    requires
        forall|i: int| 0 <= i < seg.len() ==> seg[i] != ';',
    ensures
        clean_pairs(parse_decl_spec(seg)),
{
    let t = trim_spec(seg);
    lemma_trim_excludes(seg, ';');
    if t.len() > 0 {
        let j = find_char(t, ':');
        lemma_find_char(t, ':');
        if j >= 0 {
            let rawk = t.subrange(0, j);
            let rawv = t.subrange(j + 1, t.len() as int);
            let k = trim_spec(rawk);
            let v = trim_spec(rawv);
            assert(forall|i: int| 0 <= i < rawk.len() ==> rawk[i] != ';' && rawk[i] != ':');
            assert(forall|i: int| 0 <= i < rawv.len() ==> rawv[i] != ';');
            lemma_trim_excludes(rawk, ';');
            lemma_trim_excludes(rawk, ':');
            lemma_trim_excludes(rawv, ';');
            if k.len() > 0 && v.len() > 0 {
                lemma_trim_no_space_ends(rawk);
                lemma_trim_no_space_ends(rawv);
                assert(clean_key(k));
                assert(clean_value(v));
                assert(parse_decl_spec(seg) == seq![(k, v)]);
                assert(parse_decl_spec(seg)[0].0 == k);
                assert(parse_decl_spec(seg)[0].1 == v);
            }
        }
    }
}

/// Whatever text is parsed, the resulting pairs are clean.
pub proof fn lemma_parse_clean(s: Seq<char>)
    ensures
        clean_pairs(parse_style_spec(s)),
    decreases s.len(),
{
    let i = find_char(s, ';');
    lemma_find_char(s, ';');
    if i < 0 || i >= s.len() {
        lemma_parse_decl_clean(s);
    } else {
        let seg = s.subrange(0, i);
        let rest = s.subrange(i + 1, s.len() as int);
        assert(forall|j: int| 0 <= j < seg.len() ==> seg[j] != ';');
        lemma_parse_decl_clean(seg);
        lemma_parse_clean(rest);
        let a = parse_decl_spec(seg);
        let b = parse_style_spec(rest);
        assert forall|j: int| 0 <= j < (a + b).len() implies clean_key(#[trigger] (a + b)[j].0)
            && clean_value((a + b)[j].1) by {
            if j < a.len() {
                assert((a + b)[j] == a[j]);
            } else {
                assert((a + b)[j] == b[j - a.len()]);
            }
        }
    }
}

/// Serializing clean pairs and parsing the text back yields the same pairs.
pub proof fn lemma_parse_build(ps: Seq<(Seq<char>, Seq<char>)>)
    requires
        clean_pairs(ps),
    ensures
        parse_style_spec(build_style_spec(ps)) == ps,
    decreases ps.len(),
{
    reveal_strlit(": ");
    reveal_strlit(";");
    if ps.len() == 0 {
        let s = build_style_spec(ps);
        assert(s.len() == 0);
        lemma_find_char_none(s, ';');
        assert(trim_start_spec(s) == s);
        assert(trim_spec(s).len() == 0);
        assert(parse_style_spec(s) =~= ps);
    } else {
        let k = ps[0].0;
        let v = ps[0].1;
        let rest = build_style_spec(ps.drop_first());
        let s = build_style_spec(ps);
        let m = k.len() + 2 + v.len();
        assert(s == build_pair_spec(ps[0]) + rest);
        assert(build_pair_spec(ps[0]) == k + ": "@ + v + ";"@);
        assert(build_pair_spec(ps[0]).len() == m + 1);
        assert forall|j: int| 0 <= j < m implies s[j] != ';' by {
            if j < k.len() {
                assert(s[j] == k[j]);
            } else if j == k.len() {
                assert(s[j] == ':');
            } else if j == k.len() + 1 {
                assert(s[j] == ' ');
            } else {
                assert(s[j] == v[j - k.len() - 2]);
            }
        }
        assert(s[m as int] == ';');
        lemma_find_char_at(s, ';', m as int);
        let seg = s.subrange(0, m as int);
        assert(seg =~= k + ": "@ + v);
        // the statement before the separator parses back to exactly (k, v)
        assert(seg[0] == k[0]);
        assert(seg[seg.len() - 1] == v[v.len() - 1]);
        lemma_trim_keep(seg);
        assert forall|j: int| 0 <= j < k.len() implies seg[j] != ':' by {
            assert(seg[j] == k[j]);
        }
        assert(seg[k.len() as int] == ':');
        lemma_find_char_at(seg, ':', k.len() as int);
        assert(seg.subrange(0, k.len() as int) =~= k);
        lemma_trim_keep(k);
        let rawv = seg.subrange(k.len() as int + 1, seg.len() as int);
        assert(rawv =~= seq![' '] + v);
        assert(rawv.drop_first() =~= v);
        lemma_trim_start_keep(v);
        assert(trim_start_spec(rawv) == v);
        lemma_trim_end_keep(v);
        assert(trim_spec(rawv) == v);
        assert(parse_decl_spec(seg) == seq![(k, v)]);
        // the tail after the separator is the serialization of the rest
        assert(s.subrange(m as int + 1, s.len() as int) =~= rest);
        assert(forall|i: int|
            0 <= i < ps.drop_first().len() ==> ps.drop_first()[i] == ps[i + 1]);
        lemma_parse_build(ps.drop_first());
        assert(parse_style_spec(s) == seq![(k, v)] + ps.drop_first());
        assert(ps[0] == (k, v));
        assert(parse_style_spec(s) =~= ps);
    }
}

/// Setting a property keeps the pair list clean when the name and value are.
proof fn lemma_update_clean(ps: Seq<(Seq<char>, Seq<char>)>, name: Seq<char>, v: Seq<char>)
    requires
        clean_pairs(ps),
        clean_key(name),
        clean_value(v),
    ensures
        clean_pairs(update_style_spec(ps, name, v)),
    decreases ps.len(),
{
    let r = update_style_spec(ps, name, v);
    if ps.len() == 0 {
        assert(r == seq![(name, v)]);
        assert(r[0].0 == name && r[0].1 == v);
    } else if key_matches(ps[0].0, name) {
        assert(r == seq![(ps[0].0, v)] + ps.drop_first());
        assert forall|i: int| 0 <= i < r.len() implies clean_key(#[trigger] r[i].0) && clean_value(
            r[i].1,
        ) by {
            if i == 0 {
                assert(r[0].0 == ps[0].0 && r[0].1 == v);
            } else {
                assert(r[i] == ps[i]);
            }
        }
    } else {
        assert(forall|i: int|
            0 <= i < ps.drop_first().len() ==> ps.drop_first()[i] == ps[i + 1]);
        lemma_update_clean(ps.drop_first(), name, v);
        let rr = update_style_spec(ps.drop_first(), name, v);
        assert(r == seq![ps[0]] + rr);
        assert forall|i: int| 0 <= i < r.len() implies clean_key(#[trigger] r[i].0) && clean_value(
            r[i].1,
        ) by {
            if i == 0 {
                assert(r[0] == ps[0]);
            } else {
                assert(r[i] == rr[i - 1]);
            }
        }
    }
}

/// Removing a property keeps the pair list clean.
proof fn lemma_remove_clean(ps: Seq<(Seq<char>, Seq<char>)>, name: Seq<char>)
    requires
        clean_pairs(ps),
    ensures
        clean_pairs(remove_style_spec(ps, name)),
    decreases ps.len(),
{
    if ps.len() > 0 {
        assert(forall|i: int|
            0 <= i < ps.drop_first().len() ==> ps.drop_first()[i] == ps[i + 1]);
        lemma_remove_clean(ps.drop_first(), name);
        let rr = remove_style_spec(ps.drop_first(), name);
        let r = remove_style_spec(ps, name);
        if !key_matches(ps[0].0, name) {
            assert(r == seq![ps[0]] + rr);
            assert forall|i: int|
                0 <= i < r.len() implies clean_key(#[trigger] r[i].0) && clean_value(r[i].1) by {
                if i == 0 {
                    assert(r[0] == ps[0]);
                } else {
                    assert(r[i] == rr[i - 1]);
                }
            }
        }
    }
}

/// Every pair that survives a removal stood in the original list and does
/// not match the removed name.
proof fn lemma_remove_contains(ps: Seq<(Seq<char>, Seq<char>)>, name: Seq<char>)
    ensures
        forall|i: int|
            0 <= i < remove_style_spec(ps, name).len() ==> ps.contains(
                #[trigger] remove_style_spec(ps, name)[i],
            ) && !key_matches(remove_style_spec(ps, name)[i].0, name),
    decreases ps.len(),
{
    if ps.len() > 0 {
        let tail = ps.drop_first();
        assert(forall|i: int| 0 <= i < tail.len() ==> tail[i] == ps[i + 1]);
        lemma_remove_contains(tail, name);
        let r = remove_style_spec(ps, name);
        let rr = remove_style_spec(tail, name);
        assert forall|i: int| 0 <= i < r.len() implies ps.contains(#[trigger] r[i])
            && !key_matches(r[i].0, name) by {
            if key_matches(ps[0].0, name) {
                assert(r[i] == rr[i]);
                assert(tail.contains(rr[i]));
                let j = choose|j: int| 0 <= j < tail.len() && tail[j] == rr[i];
                assert(ps[j + 1] == r[i]);
                assert(ps.contains(r[i]));
            } else {
                if i == 0 {
                    assert(r[0] == ps[0]);
                    assert(ps.contains(ps[0]));
                } else {
                    assert(r[i] == rr[i - 1]);
                    assert(tail.contains(rr[i - 1]));
                    let j = choose|j: int| 0 <= j < tail.len() && tail[j] == rr[i - 1];
                    assert(ps[j + 1] == r[i]);
                    assert(ps.contains(r[i]));
                }
            }
        }
    }
}

/// Removing a name after setting it yields the same pairs as removing it
/// without the set.
proof fn lemma_remove_update(ps: Seq<(Seq<char>, Seq<char>)>, name: Seq<char>, v: Seq<char>)
    ensures
        remove_style_spec(update_style_spec(ps, name, v), name) == remove_style_spec(ps, name),
    decreases ps.len(),
{
    let u = update_style_spec(ps, name, v);
    if ps.len() == 0 {
        assert(u == seq![(name, v)]);
        assert(u[0] == (name, v));
        assert(key_matches(name, name));
        assert(u.drop_first() =~= Seq::<(Seq<char>, Seq<char>)>::empty());
        assert(remove_style_spec(Seq::<(Seq<char>, Seq<char>)>::empty(), name) == Seq::<
            (Seq<char>, Seq<char>),
        >::empty());
        assert(remove_style_spec(u, name) == remove_style_spec(u.drop_first(), name));
        assert(remove_style_spec(u, name) =~= remove_style_spec(ps, name));
    } else if key_matches(ps[0].0, name) {
        assert(u == seq![(ps[0].0, v)] + ps.drop_first());
        assert(u[0] == (ps[0].0, v));
        assert(u.drop_first() =~= ps.drop_first());
        assert(remove_style_spec(u, name) == remove_style_spec(ps.drop_first(), name));
    } else {
        lemma_remove_update(ps.drop_first(), name, v);
        let uu = update_style_spec(ps.drop_first(), name, v);
        assert(u == seq![ps[0]] + uu);
        assert(u[0] == ps[0]);
        assert(u.drop_first() =~= uu);
        assert(remove_style_spec(u, name) == seq![ps[0]] + remove_style_spec(uu, name));
    }
}

/// Setting the same name and value twice yields the same pairs as setting
/// them once.
proof fn lemma_update_idem(ps: Seq<(Seq<char>, Seq<char>)>, name: Seq<char>, v: Seq<char>)
    ensures
        update_style_spec(update_style_spec(ps, name, v), name, v) == update_style_spec(
            ps,
            name,
            v,
        ),
    decreases ps.len(),
{
    let u = update_style_spec(ps, name, v);
    if ps.len() == 0 {
        assert(u == seq![(name, v)]);
        assert(u[0] == (name, v));
        assert(key_matches(name, name));
        assert(update_style_spec(u, name, v) == seq![(name, v)] + u.drop_first());
        assert(update_style_spec(u, name, v) =~= u);
    } else if key_matches(ps[0].0, name) {
        assert(u == seq![(ps[0].0, v)] + ps.drop_first());
        assert(u[0] == (ps[0].0, v));
        assert(u.drop_first() =~= ps.drop_first());
        assert(update_style_spec(u, name, v) == seq![(ps[0].0, v)] + ps.drop_first());
    } else {
        lemma_update_idem(ps.drop_first(), name, v);
        let uu = update_style_spec(ps.drop_first(), name, v);
        assert(u == seq![ps[0]] + uu);
        assert(u[0] == ps[0]);
        assert(u.drop_first() =~= uu);
        assert(update_style_spec(u, name, v) == seq![ps[0]] + update_style_spec(uu, name, v));
    }
}

/// Setting a property and then removing it leaves the declaration exactly as
/// removing it alone would: the name is absent and every other pair is
/// unchanged. Holds for any name and value the engine itself would write
/// (nonempty, trimmed, free of the separators).
pub proof fn lemma_set_then_remove(s: Seq<char>, name: Seq<char>, v: Seq<char>)
    requires
        clean_key(trim_spec(name)),
        clean_value(trim_spec(v)),
    ensures
        apply_remove_spec(apply_set_spec(s, name, v), name) == apply_remove_spec(s, name),
{
    let ps = parse_style_spec(s);
    let n = trim_spec(name);
    let w = trim_spec(v);
    lemma_parse_clean(s);
    lemma_update_clean(ps, n, w);
    lemma_parse_build(update_style_spec(ps, n, w));
    lemma_remove_update(ps, n, w);
}

/// After a removal, no pair whose name matches the removed one (ASCII-case-
/// insensitively) remains in the declaration.
pub proof fn lemma_removed_name_absent(s: Seq<char>, name: Seq<char>)
    ensures
        forall|i: int|
            0 <= i < parse_style_spec(apply_remove_spec(s, name)).len() ==> !key_matches(
                (#[trigger] parse_style_spec(apply_remove_spec(s, name))[i]).0,
                trim_spec(name),
            ),
{
    let ps = parse_style_spec(s);
    let n = trim_spec(name);
    let ps1 = remove_style_spec(ps, n);
    lemma_parse_clean(s);
    lemma_remove_clean(ps, n);
    lemma_parse_build(ps1);
    lemma_remove_contains(ps, n);
}

/// Setting the same property to the same value twice yields the same
/// declaration as setting it once.
pub proof fn lemma_set_idempotent(s: Seq<char>, name: Seq<char>, v: Seq<char>)
    requires
        clean_key(trim_spec(name)),
        clean_value(trim_spec(v)),
    ensures
        apply_set_spec(apply_set_spec(s, name, v), name, v) == apply_set_spec(s, name, v),
{
    let ps = parse_style_spec(s);
    let n = trim_spec(name);
    let w = trim_spec(v);
    lemma_parse_clean(s);
    lemma_update_clean(ps, n, w);
    lemma_parse_build(update_style_spec(ps, n, w));
    lemma_update_idem(ps, n, w);
}

/// The declaration text after removing each name of `names` in turn.
pub open spec fn remove_fields_spec(s: Seq<char>, names: Seq<Seq<char>>) -> Seq<char>
    decreases names.len(),
{
    if names.len() == 0 {
        s
    } else {
        remove_fields_spec(apply_remove_spec(s, names[0]), names.drop_first())
    }
}

/// The property names of a pair list, in order.
pub open spec fn keys_of(ps: Seq<(Seq<char>, Seq<char>)>) -> Seq<Seq<char>> {
    ps.map_values(|p: (Seq<char>, Seq<char>)| p.0)
}

proof fn lemma_remove_all_covered(s: Seq<char>, names: Seq<Seq<char>>)
    requires
        s == build_style_spec(parse_style_spec(s)),
        forall|j: int| 0 <= j < names.len() ==> clean_key(#[trigger] names[j]),
        forall|i: int|
            0 <= i < parse_style_spec(s).len() ==> exists|j: int|
                0 <= j < names.len() && key_matches(
                    #[trigger] parse_style_spec(s)[i].0,
                    names[j],
                ),
    ensures
        remove_fields_spec(s, names) == Seq::<char>::empty(),
    decreases names.len(),
{
    let ps = parse_style_spec(s);
    if names.len() == 0 {
        if ps.len() > 0 {
            assert(exists|j: int| 0 <= j < names.len() && key_matches(ps[0].0, names[j]));
            assert(false);
        }
        assert(s == build_style_spec(ps));
        assert(build_style_spec(ps) =~= Seq::<char>::empty());
    } else {
        let n0 = names[0];
        lemma_trim_keep(n0);
        let s1 = apply_remove_spec(s, n0);
        let ps1 = remove_style_spec(ps, n0);
        lemma_parse_clean(s);
        lemma_remove_clean(ps, n0);
        lemma_parse_build(ps1);
        assert(parse_style_spec(s1) == ps1);
        lemma_remove_contains(ps, n0);
        assert forall|i: int| 0 <= i < ps1.len() implies exists|j: int|
            0 <= j < names.drop_first().len() && key_matches(
                #[trigger] ps1[i].0,
                names.drop_first()[j],
            ) by {
            let x = ps1[i];
            assert(remove_style_spec(ps, n0)[i] == x);
            assert(ps.contains(x) && !key_matches(x.0, n0));
            let i0 = choose|i0: int| 0 <= i0 < ps.len() && ps[i0] == x;
            let j = choose|j: int| 0 <= j < names.len() && key_matches(ps[i0].0, names[j]);
            assert(j != 0);
            assert(names.drop_first()[j - 1] == names[j]);
            assert(key_matches(ps1[i].0, names.drop_first()[j - 1]));
        }
        assert(forall|j: int|
            0 <= j < names.drop_first().len() ==> clean_key(#[trigger] names.drop_first()[j]));
        lemma_remove_all_covered(s1, names.drop_first());
    }
}

/// Removing, one by one, every property name a declaration holds leaves the
/// empty text.
pub proof fn lemma_remove_all_fields(ps: Seq<(Seq<char>, Seq<char>)>)
    requires
        clean_pairs(ps),
    ensures
        remove_fields_spec(build_style_spec(ps), keys_of(ps)) == Seq::<char>::empty(),
{
    let s = build_style_spec(ps);
    lemma_parse_build(ps);
    assert(parse_style_spec(s) == ps);
    assert(forall|j: int| 0 <= j < keys_of(ps).len() ==> clean_key(#[trigger] keys_of(ps)[j]));
    assert forall|i: int| 0 <= i < ps.len() implies exists|j: int|
        0 <= j < keys_of(ps).len() && key_matches(#[trigger] ps[i].0, keys_of(ps)[j]) by {
        assert(keys_of(ps)[i] == ps[i].0);
        assert(key_matches(ps[i].0, keys_of(ps)[i]));
    }
    lemma_remove_all_covered(s, keys_of(ps));
}

/// For a non-reversed cell, an unset foreground composes to opaque white and
/// an unset background composes to transparent; the two color properties
/// stand first in the declaration.
pub proof fn lemma_unset_color_fallbacks(cell: Cell)
    requires
        !cell.modifier.reversed,
    ensures
        compose_pairs_spec(cell)[0] == ("color"@, fg_value_spec(cell)),
        compose_pairs_spec(cell)[1] == ("background-color"@, bg_value_spec(cell)),
        to_rgb_spec(cell.fg) is None ==> fg_value_spec(cell) == rgb_value_spec(
            (255u8, 255u8, 255u8),
        ),
        to_rgb_spec(cell.bg) is None ==> bg_value_spec(cell) == "transparent"@,
{
    let base = seq![("color"@, fg_value_spec(cell)), ("background-color"@, bg_value_spec(cell))];
    assert(compose_pairs_spec(cell)[0] == base[0]);
    assert(compose_pairs_spec(cell)[1] == base[1]);
}

/// `cell` with foreground and background exchanged and the reversed flag
/// cleared.
pub open spec fn swapped_cell_spec(cell: Cell) -> Cell {
    Cell {
        symbol: cell.symbol,
        fg: cell.bg,
        bg: cell.fg,
        modifier: Modifier { reversed: false, ..cell.modifier },
    }
}

/// Composing a reversed cell yields the same declaration as swapping its
/// colors and composing without the reversed flag — provided the original
/// foreground resolves. (With an unset foreground the two differ: the
/// reversed cell falls back to a white background, the swapped one to a
/// transparent one.)
pub proof fn lemma_reverse_is_swap(cell: Cell)
    requires
        cell.modifier.reversed,
        to_rgb_spec(cell.fg) is Some,
    ensures
        compose_pairs_spec(cell) == compose_pairs_spec(swapped_cell_spec(cell)),
{
    let sw = swapped_cell_spec(cell);
    assert(fg_value_spec(cell) == fg_value_spec(sw));
    assert(bg_value_spec(cell) == bg_value_spec(sw));
    assert(crate::style::modifier_pairs_spec(cell.modifier) == crate::style::modifier_pairs_spec(
        sw.modifier,
    ));
}

} // verus!

