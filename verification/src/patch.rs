//! Incremental style patch engine: parses a serialized style declaration into
//! ordered (property, value) pairs, sets or removes one property, and
//! serializes the pairs back. Malformed fragments are dropped silently, so a
//! tampered declaration degrades gracefully instead of aborting a render.

use vstd::prelude::*;
use crate::text::{
    eq_ignore_case, find_char, find_char_str, key_matches, lemma_find_char, trim_spec, trim_str,
};

verus! {

/// One pending change to a node's inline style: set `field` to the value, or
/// remove it when the value is absent.
pub struct CssAttribute {
    pub field: &'static str,
    pub value: Option<&'static str>,
}

/// The mathematical view of an ordered (property, value) pair list.
pub open spec fn pairs_view(v: Seq<(String, String)>) -> Seq<(Seq<char>, Seq<char>)> {
    v.map_values(|p: (String, String)| (p.0@, p.1@))
}

/// What one `;`-delimited statement contributes: nothing when it is blank or
/// malformed, else its single trimmed (property, value) pair. The property is
/// what stands before the first `:`, the value everything after it.
pub open spec fn parse_decl_spec(seg: Seq<char>) -> Seq<(Seq<char>, Seq<char>)> {
    let t = trim_spec(seg);
    if t.len() == 0 {
        Seq::empty()
    } else {
        let j = find_char(t, ':');
        if j < 0 {
            Seq::empty()
        } else {
            let k = trim_spec(t.subrange(0, j));
            let v = trim_spec(t.subrange(j + 1, t.len() as int));
            if k.len() == 0 || v.len() == 0 {
                Seq::empty()
            } else {
                seq![(k, v)]
            }
        }
    }
}

/// The pair list a declaration text denotes: its `;`-separated statements in
/// order, blank and malformed ones dropped.
pub open spec fn parse_style_spec(s: Seq<char>) -> Seq<(Seq<char>, Seq<char>)>
    decreases s.len(),
{
    let i = find_char(s, ';');
    if i < 0 || i >= s.len() {
        parse_decl_spec(s)
    } else {
        parse_decl_spec(s.subrange(0, i)) + parse_style_spec(s.subrange(i + 1, s.len() as int))
    }
}

/// The serialized form of one pair: `name: value;`.
pub open spec fn build_pair_spec(p: (Seq<char>, Seq<char>)) -> Seq<char> {
    p.0 + ": "@ + p.1 + ";"@
}

/// The serialized form of a pair list: its pairs' statements concatenated in
/// order.
pub open spec fn build_style_spec(ps: Seq<(Seq<char>, Seq<char>)>) -> Seq<char>
    decreases ps.len(),
{
    if ps.len() == 0 {
        Seq::empty()
    } else {
        build_pair_spec(ps[0]) + build_style_spec(ps.drop_first())
    }
}

/// `ps` with the first pair whose name matches `name` (ASCII-case-
/// insensitively) given the value `v`, keeping that pair's own spelling of
/// the name; if no pair matches, `(name, v)` is appended.
pub open spec fn update_style_spec(
    ps: Seq<(Seq<char>, Seq<char>)>,
    name: Seq<char>,
    v: Seq<char>,
) -> Seq<(Seq<char>, Seq<char>)>
    decreases ps.len(),
{
    if ps.len() == 0 {
        seq![(name, v)]
    } else if key_matches(ps[0].0, name) {
        seq![(ps[0].0, v)] + ps.drop_first()
    } else {
        seq![ps[0]] + update_style_spec(ps.drop_first(), name, v)
    }
}

/// `ps` without every pair whose name matches `name` ASCII-case-
/// insensitively.
pub open spec fn remove_style_spec(ps: Seq<(Seq<char>, Seq<char>)>, name: Seq<char>) -> Seq<
    (Seq<char>, Seq<char>),
>
    decreases ps.len(),
{
    if ps.len() == 0 {
        Seq::empty()
    } else if key_matches(ps[0].0, name) {
        remove_style_spec(ps.drop_first(), name)
    } else {
        seq![ps[0]] + remove_style_spec(ps.drop_first(), name)
    }
}

/// The declaration text after setting `name` (trimmed) to `v` (trimmed).
pub open spec fn apply_set_spec(s: Seq<char>, name: Seq<char>, v: Seq<char>) -> Seq<char> {
    build_style_spec(update_style_spec(parse_style_spec(s), trim_spec(name), trim_spec(v)))
}

/// The declaration text after removing every property matching `name`
/// (trimmed).
pub open spec fn apply_remove_spec(s: Seq<char>, name: Seq<char>) -> Seq<char> {
    build_style_spec(remove_style_spec(parse_style_spec(s), trim_spec(name)))
}

fn parse_decl(seg: &str) -> (r: Option<(String, String)>)
    ensures
        match r {
            Some(p) => parse_decl_spec(seg@) == seq![(p.0@, p.1@)],
            None => parse_decl_spec(seg@) == Seq::<(Seq<char>, Seq<char>)>::empty(),
        },
{
    let t = trim_str(seg);
    let tn = t.unicode_len();
    if tn == 0 {
        return None;
    }
    match find_char_str(t, ':') {
        None => None,
        Some(j) => {
            proof {
                lemma_find_char(t@, ':');
            }
            let rawk = t.substring_char(0, j);
            let rawv = t.substring_char(j + 1, tn);
            let k = trim_str(rawk);
            let v = trim_str(rawv);
            if k.unicode_len() == 0 || v.unicode_len() == 0 {
                None
            } else {
                Some((String::from_str(k), String::from_str(v)))
            }
        },
    }
}

/// Parses an inline style string into its ordered (property, value) pairs,
/// silently dropping blank and malformed statements.
pub fn parse_inline_style(css: &str) -> (r: Vec<(String, String)>)
    ensures
        pairs_view(r@) == parse_style_spec(css@),
{
    let mut out: Vec<(String, String)> = Vec::new();
    let n = css.unicode_len();
    let mut start: usize = 0;
    let mut more: bool = true;
    proof {
        assert(css@.subrange(0, n as int) =~= css@);
    }
    while more
        invariant
            start <= n,
            n == css@.len(),
            more ==> parse_style_spec(css@) == pairs_view(out@) + parse_style_spec(
                css@.subrange(start as int, n as int),
            ),
            !more ==> pairs_view(out@) == parse_style_spec(css@),
        decreases n - start + (if more {
            1int
        } else {
            0int
        }),
    {
        let rest = css.substring_char(start, n);
        let ghost rests = css@.subrange(start as int, n as int);
        match find_char_str(rest, ';') {
            Some(i) => {
                proof {
                    lemma_find_char(rests, ';');
                }
                let seg = rest.substring_char(0, i);
                let ghost old_out = out@;
                if let Some(p) = parse_decl(seg) {
                    out.push(p);
                }
                proof {
                    assert(parse_style_spec(rests) == parse_decl_spec(rests.subrange(0, i as int))
                        + parse_style_spec(rests.subrange(i + 1, rests.len() as int)));
                    assert(pairs_view(out@) =~= pairs_view(old_out) + parse_decl_spec(seg@));
                    assert(css@.subrange(start + i + 1, n as int) =~= rests.subrange(
                        i + 1,
                        rests.len() as int,
                    ));
                    assert(pairs_view(out@) + parse_style_spec(
                        css@.subrange(start + i + 1, n as int),
                    ) =~= (pairs_view(old_out) + parse_decl_spec(seg@)) + parse_style_spec(
                        rests.subrange(i + 1, rests.len() as int),
                    ));
                    assert((pairs_view(old_out) + parse_decl_spec(seg@)) + parse_style_spec(
                        rests.subrange(i + 1, rests.len() as int),
                    ) =~= pairs_view(old_out) + parse_style_spec(rests));
                }
                start = start + i + 1;
            },
            None => {
                proof {
                    lemma_find_char(rests, ';');
                }
                let ghost old_out = out@;
                if let Some(p) = parse_decl(rest) {
                    out.push(p);
                }
                proof {
                    assert(parse_style_spec(rests) == parse_decl_spec(rests));
                    assert(pairs_view(out@) =~= pairs_view(old_out) + parse_decl_spec(rests));
                    assert(pairs_view(out@) =~= parse_style_spec(css@));
                }
                more = false;
            },
        }
    }
    out
}

/// `pairs_view` distributes over appending one pair.
pub proof fn lemma_pairs_view_push(v: Seq<(String, String)>, p: (String, String))
    ensures
        pairs_view(v.push(p)) == pairs_view(v) + seq![(p.0@, p.1@)],
{
    assert(pairs_view(v.push(p)) =~= pairs_view(v) + seq![(p.0@, p.1@)]);
}

/// `build_style_spec` distributes over appending one pair at the end.
pub proof fn lemma_build_snoc(ps: Seq<(Seq<char>, Seq<char>)>, p: (Seq<char>, Seq<char>))
    ensures
        build_style_spec(ps.push(p)) == build_style_spec(ps) + build_pair_spec(p),
    decreases ps.len(),
{
    if ps.len() == 0 {
        assert(ps.push(p)[0] == p);
        assert(ps.push(p).drop_first() =~= Seq::<(Seq<char>, Seq<char>)>::empty());
        assert(build_style_spec(ps.push(p).drop_first()) == Seq::<char>::empty());
        assert(build_style_spec(ps.push(p)) == build_pair_spec(p) + Seq::<char>::empty());
        assert(build_style_spec(ps) == Seq::<char>::empty());
        assert(build_style_spec(ps.push(p)) =~= build_style_spec(ps) + build_pair_spec(p));
    } else {
        assert(ps.push(p).drop_first() =~= ps.drop_first().push(p));
        assert(ps.push(p)[0] == ps[0]);
        lemma_build_snoc(ps.drop_first(), p);
        assert(build_style_spec(ps.push(p)) == build_pair_spec(ps[0]) + (build_style_spec(
            ps.drop_first(),
        ) + build_pair_spec(p)));
        assert(build_style_spec(ps.push(p)) =~= build_style_spec(ps) + build_pair_spec(p));
    }
}

/// The serialized text is empty exactly when the pair list is.
pub proof fn lemma_build_empty(ps: Seq<(Seq<char>, Seq<char>)>)
    ensures
        (build_style_spec(ps).len() == 0) <==> (ps.len() == 0),
{
    if ps.len() > 0 {
        reveal_strlit(": ");
        reveal_strlit(";");
        assert(build_pair_spec(ps[0]).len() > 0);
        assert(build_style_spec(ps).len() > 0);
    }
}

/// Serializes a pair list back to `name: value;` statements in order.
pub fn build_inline_style(styles: &Vec<(String, String)>) -> (r: String)
    ensures
        r@ == build_style_spec(pairs_view(styles@)),
{
    let mut s = String::new();
    let n = styles.len();
    let mut i: usize = 0;
    proof {
        assert(pairs_view(styles@).subrange(0, 0) =~= Seq::<(Seq<char>, Seq<char>)>::empty());
    }
    while i < n
        invariant
            i <= n,
            n == styles@.len(),
            s@ == build_style_spec(pairs_view(styles@).subrange(0, i as int)),
        decreases n - i,
    {
        let ghost ps = pairs_view(styles@);
        let ghost before = s@;
        s.append(styles[i].0.as_str());
        s.append(": ");
        s.append(styles[i].1.as_str());
        s.append(";");
        proof {
            assert(s@ =~= before + build_pair_spec(ps[i as int]));
            assert(ps.subrange(0, i + 1) =~= ps.subrange(0, i as int).push(ps[i as int]));
            lemma_build_snoc(ps.subrange(0, i as int), ps[i as int]);
        }
        i = i + 1;
    }
    proof {
        assert(pairs_view(styles@).subrange(0, n as int) =~= pairs_view(styles@));
    }
    s
}

/// Applies one property change to a serialized style declaration: with
/// `Some(v)` the property `field` is set to `v` (replacing the first
/// case-insensitive match in place, else appended at the end); with `None`
/// every matching property is removed. Blank or malformed statements of the
/// input are dropped. The result is the re-serialized declaration; it is the
/// empty string exactly when no pair is left.
pub fn apply_field(css: &str, field: &str, value: Option<&str>) -> (r: String)
    ensures
        match value {
            Some(v) => r@ == apply_set_spec(css@, field@, v@),
            None => r@ == apply_remove_spec(css@, field@),
        },
        value is Some ==> r@.len() > 0,
        value is None ==> ((r@.len() == 0) <==> remove_style_spec(
            parse_style_spec(css@),
            trim_spec(field@),
        ).len() == 0),
{
    let styles = parse_inline_style(css);
    let target = trim_str(field);
    let n = styles.len();
    let ghost full = pairs_view(styles@);
    let mut res: Vec<(String, String)> = Vec::new();
    match value {
        Some(newv) => {
            let val = trim_str(newv);
            let mut replaced: bool = false;
            let mut i: usize = 0;
            proof {
                assert(full.subrange(0, n as int) =~= full);
            }
            while i < n
                invariant
                    i <= n,
                    n == styles@.len(),
                    full == pairs_view(styles@),
                    !replaced ==> update_style_spec(full, target@, val@) == pairs_view(res@)
                        + update_style_spec(
                        full.subrange(i as int, n as int),
                        target@,
                        val@,
                    ),
                    replaced ==> update_style_spec(full, target@, val@) == pairs_view(res@)
                        + full.subrange(i as int, n as int),
                    replaced ==> res@.len() >= 1,
                decreases n - i,
            {
                let ghost suffix = full.subrange(i as int, n as int);
                let ghost old_res = res@;
                let k = styles[i].0.clone();
                let v = styles[i].1.clone();
                proof {
                    assert(suffix[0] == full[i as int]);
                    assert(suffix.drop_first() =~= full.subrange(i + 1, n as int));
                }
                if !replaced && eq_ignore_case(k.as_str(), target) {
                    res.push((k, String::from_str(val)));
                    replaced = true;
                    proof {
                        assert(update_style_spec(suffix, target@, val@) =~= seq![
                            (suffix[0].0, val@),
                        ] + suffix.drop_first());
                        assert(pairs_view(res@) =~= pairs_view(old_res) + seq![
                            (suffix[0].0, val@),
                        ]);
                        assert(pairs_view(res@) + full.subrange(i + 1, n as int)
                            =~= pairs_view(old_res) + update_style_spec(suffix, target@, val@));
                    }
                } else {
                    let ghost was_replaced = replaced;
                    res.push((k, v));
                    proof {
                        assert(pairs_view(res@) =~= pairs_view(old_res) + seq![suffix[0]]);
                        if was_replaced {
                            assert(suffix =~= seq![suffix[0]] + suffix.drop_first());
                            assert(pairs_view(res@) + full.subrange(i + 1, n as int)
                                =~= pairs_view(old_res) + suffix);
                        } else {
                            assert(update_style_spec(suffix, target@, val@) =~= seq![suffix[0]]
                                + update_style_spec(suffix.drop_first(), target@, val@));
                            assert(pairs_view(res@) + update_style_spec(
                                full.subrange(i + 1, n as int),
                                target@,
                                val@,
                            ) =~= pairs_view(old_res) + update_style_spec(suffix, target@, val@));
                        }
                    }
                }
                i = i + 1;
            }
            proof {
                assert(full.subrange(n as int, n as int) =~= Seq::<(Seq<char>, Seq<char>)>::empty());
            }
            if !replaced {
                let ghost old_res = res@;
                res.push((String::from_str(target), String::from_str(val)));
                proof {
                    assert(update_style_spec(Seq::<(Seq<char>, Seq<char>)>::empty(), target@, val@)
                        =~= seq![(target@, val@)]);
                    assert(pairs_view(res@) =~= pairs_view(old_res) + seq![(target@, val@)]);
                    assert(pairs_view(res@) =~= update_style_spec(full, target@, val@));
                }
            } else {
                proof {
                    assert(pairs_view(res@) =~= update_style_spec(full, target@, val@));
                }
            }
        },
        None => {
            let mut i: usize = 0;
            proof {
                assert(full.subrange(0, n as int) =~= full);
            }
            while i < n
                invariant
                    i <= n,
                    n == styles@.len(),
                    full == pairs_view(styles@),
                    remove_style_spec(full, target@) == pairs_view(res@) + remove_style_spec(
                        full.subrange(i as int, n as int),
                        target@,
                    ),
                decreases n - i,
            {
                let ghost suffix = full.subrange(i as int, n as int);
                let ghost old_res = res@;
                let k = styles[i].0.clone();
                let v = styles[i].1.clone();
                proof {
                    assert(suffix[0] == full[i as int]);
                    assert(suffix.drop_first() =~= full.subrange(i + 1, n as int));
                }
                if eq_ignore_case(k.as_str(), target) {
                    proof {
                        assert(remove_style_spec(suffix, target@) == remove_style_spec(
                            suffix.drop_first(),
                            target@,
                        ));
                    }
                } else {
                    res.push((k, v));
                    proof {
                        assert(pairs_view(res@) =~= pairs_view(old_res) + seq![suffix[0]]);
                        assert(remove_style_spec(suffix, target@) =~= seq![suffix[0]]
                            + remove_style_spec(suffix.drop_first(), target@));
                        assert(pairs_view(res@) + remove_style_spec(
                            full.subrange(i + 1, n as int),
                            target@,
                        ) =~= pairs_view(old_res) + remove_style_spec(suffix, target@));
                    }
                }
                i = i + 1;
            }
            proof {
                assert(full.subrange(n as int, n as int) =~= Seq::<(Seq<char>, Seq<char>)>::empty());
                assert(pairs_view(res@) =~= remove_style_spec(full, target@));
            }
        },
    }
    proof {
        lemma_build_empty(pairs_view(res@));
    }
    build_inline_style(&res)
}

} // verus!
