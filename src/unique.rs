//! Uniqueness of the analysis of a closed enumeration: any two analyses of
//! one kind agree on everything the emitted text reads.
use vstd::prelude::*;
use crate::grammar::{Enumerant, Grammar, OperandKind, names_view};
use crate::order::{lemma_names_lt_irreflexive, lemma_names_lt_transitive, names_lt};
use crate::header::{all_analysed, analysed, header_text, kind_text, kinds_text};
use crate::render::{alias_lines, group_arms, member_list, value_enum_text, variant_arms, variant_lines};
use crate::value_enum::{
    Alias, CapGroup, ValueEnum, Variant, aliases_model, canonical_at, groups_partition, grouped, in_group,
    lemma_alias_canonical, variants_model,
};

verus! {

/// `s` lists, in ascending order, exactly the indexes below `n` where `p`
/// holds.
pub open spec fn ascending_enumeration(s: Seq<int>, p: spec_fn(int) -> bool, n: int) -> bool {
    &&& forall|a: int| 0 <= a < s.len() ==> 0 <= #[trigger] s[a] < n && p(s[a])
    &&& forall|a: int, b: int| 0 <= a < b < s.len() ==> #[trigger] s[a] < #[trigger] s[b]
    &&& forall|i: int| 0 <= i < n && #[trigger] p(i) ==> exists|a: int| 0 <= a < s.len() && #[trigger] s[a] == i
}

proof fn lemma_ascending_prefix(s1: Seq<int>, s2: Seq<int>, p: spec_fn(int) -> bool, n: int, k: int)
    requires
        ascending_enumeration(s1, p, n),
        ascending_enumeration(s2, p, n),
        0 <= k <= s1.len(),
        k <= s2.len(),
    ensures
        forall|b: int| 0 <= b < k ==> s1[b] == s2[b],
    decreases k,
{
    if k > 0 {
        lemma_ascending_prefix(s1, s2, p, n, k - 1);
        let a = k - 1;
        let x1 = s1[a];
        let x2 = s2[a];
        assert(p(x1) && 0 <= x1 < n);
        assert(p(x2) && 0 <= x2 < n);
        let b = choose|b: int| 0 <= b < s2.len() && #[trigger] s2[b] == x1;
        let c = choose|c: int| 0 <= c < s1.len() && #[trigger] s1[c] == x2;
        if b < a {
            assert(s1[b] < s1[a]);
        }
        if c < a {
            assert(s2[c] < s2[a]);
        }
        if b > a {
            assert(s2[a] < s2[b]);
            if c > a {
                assert(s1[a] < s1[c]);
            }
        }
        if c > a && b != a {
            assert(s1[a] < s1[c]);
        }
    }
}

/// Two ascending enumerations of the same indexes are equal.
pub proof fn lemma_ascending_unique(s1: Seq<int>, s2: Seq<int>, p: spec_fn(int) -> bool, n: int)
    requires
        ascending_enumeration(s1, p, n),
        ascending_enumeration(s2, p, n),
    ensures
        s1 == s2,
{
    if s1.len() > s2.len() {
        lemma_ascending_prefix(s1, s2, p, n, s2.len() as int);
        let x = s1[s2.len() as int];
        assert(p(x) && 0 <= x < n);
        let b = choose|b: int| 0 <= b < s2.len() && #[trigger] s2[b] == x;
        assert(s1[b] < s1[s2.len() as int]);
    } else if s2.len() > s1.len() {
        lemma_ascending_prefix(s1, s2, p, n, s1.len() as int);
        let x = s2[s1.len() as int];
        assert(p(x) && 0 <= x < n);
        let b = choose|b: int| 0 <= b < s1.len() && #[trigger] s1[b] == x;
        assert(s2[b] < s2[s1.len() as int]);
    } else {
        lemma_ascending_prefix(s1, s2, p, n, s1.len() as int);
        assert(s1 =~= s2);
    }
}

/// The enumerant indexes of the variants.
pub open spec fn variant_sources(vs: Seq<Variant>) -> Seq<int> {
    vs.map_values(|v: Variant| v.source as int)
}

/// The enumerant indexes of the aliases.
pub open spec fn alias_sources(als: Seq<Alias>) -> Seq<int> {
    als.map_values(|al: Alias| al.source as int)
}

/// The members of a group, as integers.
pub open spec fn member_ints(ms: Seq<usize>) -> Seq<int> {
    ms.map_values(|m: usize| m as int)
}

/// The capability list of the variant at `a`, whose enumerant indexes are
/// `srcs`.
pub open spec fn caps_at(es: Seq<Enumerant>, srcs: Seq<int>, a: int) -> Seq<Seq<char>> {
    es[srcs[a]].caps()
}

proof fn lemma_variant_sources(vs: Seq<Variant>, kind: Seq<char>, es: Seq<Enumerant>)
    requires
        variants_model(vs, kind, es, es.len() as int),
    ensures
        ascending_enumeration(variant_sources(vs), |i: int| canonical_at(es, i), es.len() as int),
{
    let s = variant_sources(vs);
    assert forall|a: int, b: int| 0 <= a < b < s.len() implies #[trigger] s[a] < #[trigger] s[b] by {
        assert(vs[a].source < vs[b].source);
    }
    assert forall|a: int| 0 <= a < s.len() implies 0 <= #[trigger] s[a] < es.len() && canonical_at(es, s[a]) by {
        assert(vs[a].source < es.len());
    }
    assert forall|i: int| 0 <= i < es.len() && #[trigger] canonical_at(es, i) implies exists|a: int|
        0 <= a < s.len() && #[trigger] s[a] == i by {
        let a = choose|a: int| 0 <= a < vs.len() && #[trigger] vs[a].source == i;
        assert(s[a] == i);
    }
}

proof fn lemma_alias_sources(als: Seq<Alias>, vs: Seq<Variant>, es: Seq<Enumerant>)
    requires
        aliases_model(als, vs, es, es.len() as int),
    ensures
        ascending_enumeration(alias_sources(als), |i: int| !canonical_at(es, i), es.len() as int),
{
    let s = alias_sources(als);
    assert forall|a: int, b: int| 0 <= a < b < s.len() implies #[trigger] s[a] < #[trigger] s[b] by {
        assert(als[a].source < als[b].source);
    }
    assert forall|a: int| 0 <= a < s.len() implies 0 <= #[trigger] s[a] < es.len() && !canonical_at(es, s[a]) by {
        assert(als[a].source < es.len());
    }
    assert forall|i: int| 0 <= i < es.len() && !canonical_at(es, i) implies exists|a: int|
        0 <= a < s.len() && #[trigger] s[a] == i by {
        let a = choose|a: int| 0 <= a < als.len() && #[trigger] als[a].source == i;
        assert(s[a] == i);
    }
}

proof fn lemma_group_members(gs: Seq<CapGroup>, vs: Seq<Variant>, es: Seq<Enumerant>, srcs: Seq<int>, c: Seq<Seq<char>>, g: int)
    requires
        groups_partition(gs, vs, es, vs.len() as int),
        srcs == variant_sources(vs),
        0 <= g < gs.len(),
        c == names_view(gs[g].capabilities@),
    ensures
        ascending_enumeration(member_ints(gs[g].members@), |a: int| caps_at(es, srcs, a) == c, vs.len() as int),
{
    let s = member_ints(gs[g].members@);
    assert forall|a: int, b: int| 0 <= a < b < s.len() implies #[trigger] s[a] < #[trigger] s[b] by {
        assert(gs[g].members@[a] < gs[g].members@[b]);
    }
    assert forall|a: int| 0 <= a < s.len() implies 0 <= #[trigger] s[a] < vs.len() && caps_at(es, srcs, s[a]) == c by {
        assert(gs[g].members@[a] < vs.len());
    }
    assert forall|i: int| 0 <= i < vs.len() && caps_at(es, srcs, i) == c implies exists|a: int|
        0 <= a < s.len() && #[trigger] s[a] == i by {
        assert(grouped(gs, i));
        let h = choose|h: int| 0 <= h < gs.len() && #[trigger] in_group(gs, h, i);
        let m = choose|m: int| 0 <= m < gs[h].members@.len() && #[trigger] gs[h].members@[m] == i;
        assert(gs[h].members@[m] < vs.len());
        if h != g {
            assert(names_view(gs[h].capabilities@) != names_view(gs[g].capabilities@));
        }
        assert(s[m] == i);
    }
}

/// The capability lists of the groups.
pub open spec fn group_caps(gs: Seq<CapGroup>) -> Seq<Seq<Seq<char>>> {
    gs.map_values(|g: CapGroup| names_view(g.capabilities@))
}

/// `s` is strictly increasing in the order of name lists.
pub open spec fn names_sorted(s: Seq<Seq<Seq<char>>>) -> bool {
    forall|a: int, b: int| 0 <= a < b < s.len() ==> names_lt(#[trigger] s[a], #[trigger] s[b])
}

proof fn lemma_sorted_prefix(s1: Seq<Seq<Seq<char>>>, s2: Seq<Seq<Seq<char>>>, k: int)
    requires
        names_sorted(s1),
        names_sorted(s2),
        forall|x: Seq<Seq<char>>| s1.contains(x) <==> s2.contains(x),
        0 <= k <= s1.len(),
        k <= s2.len(),
    ensures
        forall|b: int| 0 <= b < k ==> s1[b] == s2[b],
    decreases k,
{
    if k > 0 {
        lemma_sorted_prefix(s1, s2, k - 1);
        let a = k - 1;
        let (x1, x2) = (s1[a], s2[a]);
        assert(s1.contains(x1));
        assert(s2.contains(x2));
        let b = choose|b: int| 0 <= b < s2.len() && s2[b] == x1;
        let c = choose|c: int| 0 <= c < s1.len() && s1[c] == x2;
        lemma_names_lt_irreflexive(x1);
        lemma_names_lt_irreflexive(x2);
        if b < a {
            assert(names_lt(s1[b], s1[a]));
        } else if c < a {
            assert(names_lt(s2[c], s2[a]));
        } else if b > a && c > a {
            assert(names_lt(s2[a], s2[b]));
            assert(names_lt(s1[a], s1[c]));
            lemma_names_lt_transitive(x1, x2, x1);
        }
    }
}

/// Two strictly sorted lists of name lists with the same elements are equal.
proof fn lemma_sorted_unique(s1: Seq<Seq<Seq<char>>>, s2: Seq<Seq<Seq<char>>>)
    requires
        names_sorted(s1),
        names_sorted(s2),
        forall|x: Seq<Seq<char>>| s1.contains(x) <==> s2.contains(x),
    ensures
        s1 == s2,
{
    if s1.len() > s2.len() {
        lemma_sorted_prefix(s1, s2, s2.len() as int);
        let x = s1[s2.len() as int];
        assert(s1.contains(x));
        let b = choose|b: int| 0 <= b < s2.len() && s2[b] == x;
        assert(names_lt(s1[b], s1[s2.len() as int]));
        lemma_names_lt_irreflexive(x);
    } else if s2.len() > s1.len() {
        lemma_sorted_prefix(s1, s2, s1.len() as int);
        let x = s2[s1.len() as int];
        assert(s2.contains(x));
        let b = choose|b: int| 0 <= b < s1.len() && s1[b] == x;
        assert(names_lt(s2[b], s2[s1.len() as int]));
        lemma_names_lt_irreflexive(x);
    } else {
        lemma_sorted_prefix(s1, s2, s1.len() as int);
        assert(s1 =~= s2);
    }
}

/// Every capability list of `gs1` is one of `gs2`.
proof fn lemma_group_caps_within(
    gs1: Seq<CapGroup>,
    gs2: Seq<CapGroup>,
    vs1: Seq<Variant>,
    vs2: Seq<Variant>,
    es: Seq<Enumerant>,
    srcs: Seq<int>,
)
    requires
        groups_partition(gs1, vs1, es, vs1.len() as int),
        groups_partition(gs2, vs2, es, vs2.len() as int),
        vs1.len() == vs2.len(),
        srcs == variant_sources(vs1),
        srcs == variant_sources(vs2),
    ensures
        forall|x: Seq<Seq<char>>| group_caps(gs1).contains(x) ==> group_caps(gs2).contains(x),
{
    assert forall|x: Seq<Seq<char>>| group_caps(gs1).contains(x) implies group_caps(gs2).contains(x) by {
        let g = choose|g: int| 0 <= g < group_caps(gs1).len() && group_caps(gs1)[g] == x;
        assert(gs1[g].members@.len() > 0);
        let a = gs1[g].members@[0] as int;
        assert(gs1[g].members@[0] < vs1.len());
        assert(es[vs1[a].source as int].caps() == x);
        assert(grouped(gs2, a));
        let h = choose|h: int| 0 <= h < gs2.len() && #[trigger] in_group(gs2, h, a);
        let m = choose|m: int| 0 <= m < gs2[h].members@.len() && #[trigger] gs2[h].members@[m] == a;
        assert(gs2[h].members@[m] < vs2.len());
        assert(srcs[a] == vs1[a].source as int);
        assert(srcs[a] == vs2[a].source as int);
        assert(group_caps(gs2)[h] == x);
    }
}

/// Two group lists that agree on every member list and capability list.
pub open spec fn groups_agree(gs1: Seq<CapGroup>, gs2: Seq<CapGroup>) -> bool {
    &&& gs1.len() == gs2.len()
    &&& forall|g: int|
        0 <= g < gs1.len() ==> {
            &&& #[trigger] gs1[g].members@ == gs2[g].members@
            &&& names_view(gs1[g].capabilities@) == names_view(gs2[g].capabilities@)
        }
}

/// Two variant lists that agree on every source, value and name.
pub open spec fn variants_agree(vs1: Seq<Variant>, vs2: Seq<Variant>) -> bool {
    &&& vs1.len() == vs2.len()
    &&& forall|a: int|
        0 <= a < vs1.len() ==> {
            &&& #[trigger] vs1[a].source == vs2[a].source
            &&& vs1[a].value == vs2[a].value
            &&& vs1[a].name@ == vs2[a].name@
        }
}

/// Two alias lists that agree on every source, target and name.
pub open spec fn aliases_agree(als1: Seq<Alias>, als2: Seq<Alias>) -> bool {
    &&& als1.len() == als2.len()
    &&& forall|a: int|
        0 <= a < als1.len() ==> {
            &&& #[trigger] als1[a].source == als2[a].source
            &&& als1[a].target == als2[a].target
            &&& als1[a].name@ == als2[a].name@
        }
}

proof fn lemma_variants_unique(vs1: Seq<Variant>, vs2: Seq<Variant>, kind: Seq<char>, es: Seq<Enumerant>)
    requires
        variants_model(vs1, kind, es, es.len() as int),
        variants_model(vs2, kind, es, es.len() as int),
    ensures
        variants_agree(vs1, vs2),
{
    let n = es.len() as int;
    lemma_variant_sources(vs1, kind, es);
    lemma_variant_sources(vs2, kind, es);
    lemma_ascending_unique(variant_sources(vs1), variant_sources(vs2), |i: int| canonical_at(es, i), n);
    assert(variant_sources(vs1).len() == vs1.len() && variant_sources(vs2).len() == vs2.len());
    assert forall|a: int| 0 <= a < vs1.len() implies {
        &&& #[trigger] vs1[a].source == vs2[a].source
        &&& vs1[a].value == vs2[a].value
        &&& vs1[a].name@ == vs2[a].name@
    } by {
        assert(variant_sources(vs1)[a] == variant_sources(vs2)[a]);
        assert(vs1[a].source < n);
        assert(vs2[a].source < n);
    }
}

proof fn lemma_aliases_unique(ve1: ValueEnum, ve2: ValueEnum, kind: Seq<char>, es: Seq<Enumerant>)
    requires
        ve1.models(kind, es),
        ve2.models(kind, es),
        variants_agree(ve1.variants@, ve2.variants@),
    ensures
        aliases_agree(ve1.aliases@, ve2.aliases@),
{
    let (vs1, vs2) = (ve1.variants@, ve2.variants@);
    let n = es.len() as int;
    let (als1, als2) = (ve1.aliases@, ve2.aliases@);
    lemma_alias_sources(als1, vs1, es);
    lemma_alias_sources(als2, vs2, es);
    lemma_ascending_unique(alias_sources(als1), alias_sources(als2), |i: int| !canonical_at(es, i), n);
    assert(alias_sources(als1).len() == als1.len() && alias_sources(als2).len() == als2.len());
    assert forall|a: int| 0 <= a < als1.len() implies {
        &&& #[trigger] als1[a].source == als2[a].source
        &&& als1[a].target == als2[a].target
        &&& als1[a].name@ == als2[a].name@
    } by {
        assert(alias_sources(als1)[a] == alias_sources(als2)[a]);
        let i = als1[a].source as int;
        assert(als1[a].source < n && als2[a].source < n);
        lemma_alias_canonical(ve1, kind, es, i);
        let (t1, t2) = (als1[a].target as int, als2[a].target as int);
        assert(t2 < vs2.len());
        assert(vs1[t2].source == vs2[t2].source);
        assert(vs1[t1].value == es[i].value);
        assert(vs1[t2].value == es[i].value);
    }
    assert(als1.len() == als2.len());
    assert(aliases_agree(als1, als2));
}

/// Any two analyses of one closed enumeration agree: on the source, value and
/// name of every variant, on the source, name and target of every alias, and
/// on the members and capability list of every group.
pub proof fn lemma_analysis_unique(ve1: ValueEnum, ve2: ValueEnum, kind: Seq<char>, es: Seq<Enumerant>)
    requires
        ve1.models(kind, es),
        ve2.models(kind, es),
    ensures
        variants_agree(ve1.variants@, ve2.variants@),
        aliases_agree(ve1.aliases@, ve2.aliases@),
        groups_agree(ve1.groups@, ve2.groups@),
{
    let (vs1, vs2) = (ve1.variants@, ve2.variants@);
    lemma_variants_unique(vs1, vs2, kind, es);
    lemma_aliases_unique(ve1, ve2, kind, es);
    let srcs = variant_sources(vs1);
    assert(variant_sources(vs2) =~= srcs) by {
        assert forall|a: int| 0 <= a < vs1.len() implies variant_sources(vs2)[a] == srcs[a] by {
            assert(vs1[a].source == vs2[a].source);
        }
    }
    lemma_groups_unique(ve1.groups@, ve2.groups@, vs1, vs2, es, srcs);
}

proof fn lemma_groups_unique(
    gs1: Seq<CapGroup>,
    gs2: Seq<CapGroup>,
    vs1: Seq<Variant>,
    vs2: Seq<Variant>,
    es: Seq<Enumerant>,
    srcs: Seq<int>,
)
    requires
        groups_partition(gs1, vs1, es, vs1.len() as int),
        groups_partition(gs2, vs2, es, vs2.len() as int),
        vs1.len() == vs2.len(),
        srcs == variant_sources(vs1),
        srcs == variant_sources(vs2),
    ensures
        groups_agree(gs1, gs2),
{
    lemma_group_caps_within(gs1, gs2, vs1, vs2, es, srcs);
    lemma_group_caps_within(gs2, gs1, vs2, vs1, es, srcs);
    assert(names_sorted(group_caps(gs1)));
    assert(names_sorted(group_caps(gs2)));
    lemma_sorted_unique(group_caps(gs1), group_caps(gs2));
    assert(group_caps(gs1).len() == gs1.len() && group_caps(gs2).len() == gs2.len());
    assert forall|g: int| 0 <= g < gs1.len() implies {
        &&& #[trigger] gs1[g].members@ == gs2[g].members@
        &&& names_view(gs1[g].capabilities@) == names_view(gs2[g].capabilities@)
    } by {
        assert(group_caps(gs1)[g] == group_caps(gs2)[g]);
        let c = names_view(gs1[g].capabilities@);
        assert(names_view(gs2[g].capabilities@) == c);
        lemma_group_members(gs1, vs1, es, srcs, c, g);
        lemma_group_members(gs2, vs2, es, srcs, c, g);
        lemma_ascending_unique(
            member_ints(gs1[g].members@),
            member_ints(gs2[g].members@),
            |a: int| caps_at(es, srcs, a) == c,
            vs1.len() as int,
        );
        assert(gs1[g].members@ =~= gs2[g].members@) by {
            assert forall|m: int| 0 <= m < gs1[g].members@.len() implies gs1[g].members@[m] == gs2[g].members@[m] by {
                assert(member_ints(gs1[g].members@)[m] == member_ints(gs2[g].members@)[m]);
            }
        }
    }
    assert(groups_agree(gs1, gs2));
}

/// Two variant lists that agree on every name and value.
pub open spec fn same_variant_views(vs1: Seq<Variant>, vs2: Seq<Variant>) -> bool {
    &&& vs1.len() == vs2.len()
    &&& forall|a: int|
        0 <= a < vs1.len() ==> #[trigger] vs1[a].value == vs2[a].value && vs1[a].name@ == vs2[a].name@
}

proof fn lemma_variant_texts(kind: Seq<char>, vs1: Seq<Variant>, vs2: Seq<Variant>)
    requires
        same_variant_views(vs1, vs2),
    ensures
        variant_lines(vs1) == variant_lines(vs2),
        variant_arms(kind, vs1) == variant_arms(kind, vs2),
    decreases vs1.len(),
{
    if vs1.len() > 0 {
        let n = vs1.len() - 1;
        assert(vs1[n].value == vs2[n].value);
        assert forall|a: int| 0 <= a < n implies #[trigger] vs1.drop_last()[a].value == vs2.drop_last()[a].value
            && vs1.drop_last()[a].name@ == vs2.drop_last()[a].name@ by {
            assert(vs1[a].value == vs2[a].value);
        }
        lemma_variant_texts(kind, vs1.drop_last(), vs2.drop_last());
    }
}

proof fn lemma_member_list(kind: Seq<char>, vs1: Seq<Variant>, vs2: Seq<Variant>, ms: Seq<usize>)
    requires
        same_variant_views(vs1, vs2),
        forall|m: int| 0 <= m < ms.len() ==> #[trigger] ms[m] < vs1.len(),
    ensures
        member_list(kind, vs1, ms) == member_list(kind, vs2, ms),
    decreases ms.len(),
{
    if ms.len() > 0 {
        assert(ms[ms.len() - 1] < vs1.len());
        assert(ms[0] < vs1.len());
        assert(vs1[ms[0] as int].value == vs2[ms[0] as int].value);
        assert(vs1[ms.last() as int].value == vs2[ms.last() as int].value);
        lemma_member_list(kind, vs1, vs2, ms.drop_last());
    }
}

proof fn lemma_alias_texts(kind: Seq<char>, vs1: Seq<Variant>, vs2: Seq<Variant>, als1: Seq<Alias>, als2: Seq<Alias>)
    requires
        same_variant_views(vs1, vs2),
        als1.len() == als2.len(),
        forall|a: int|
            0 <= a < als1.len() ==> #[trigger] als1[a].target == als2[a].target && als1[a].target < vs1.len()
                && als1[a].name@ == als2[a].name@,
    ensures
        alias_lines(kind, vs1, als1) == alias_lines(kind, vs2, als2),
    decreases als1.len(),
{
    if als1.len() > 0 {
        let n = als1.len() - 1;
        assert(als1[n].target == als2[n].target);
        assert(vs1[als1[n].target as int].value == vs2[als1[n].target as int].value);
        assert forall|a: int| 0 <= a < n implies #[trigger] als1.drop_last()[a].target == als2.drop_last()[a].target
            && als1.drop_last()[a].target < vs1.len() && als1.drop_last()[a].name@ == als2.drop_last()[a].name@ by {
            assert(als1[a].target == als2[a].target);
        }
        lemma_alias_texts(kind, vs1, vs2, als1.drop_last(), als2.drop_last());
    }
}

proof fn lemma_group_texts(kind: Seq<char>, vs1: Seq<Variant>, vs2: Seq<Variant>, gs1: Seq<CapGroup>, gs2: Seq<CapGroup>)
    requires
        same_variant_views(vs1, vs2),
        groups_agree(gs1, gs2),
        forall|g: int, m: int| 0 <= g < gs1.len() && 0 <= m < gs1[g].members@.len() ==> #[trigger] gs1[g].members@[m] < vs1.len(),
    ensures
        group_arms(kind, vs1, gs1) == group_arms(kind, vs2, gs2),
    decreases gs1.len(),
{
    if gs1.len() > 0 {
        let n = gs1.len() - 1;
        assert(gs1[n].members@ == gs2[n].members@);
        assert forall|m: int| 0 <= m < gs1[n].members@.len() implies #[trigger] gs1[n].members@[m] < vs1.len() by {
        }
        lemma_member_list(kind, vs1, vs2, gs1[n].members@);
        assert forall|g: int| 0 <= g < n implies #[trigger] gs1.drop_last()[g].members@ == gs2.drop_last()[g].members@
            && names_view(gs1.drop_last()[g].capabilities@) == names_view(gs2.drop_last()[g].capabilities@) by {
            assert(gs1[g].members@ == gs2[g].members@);
        }
        assert(groups_agree(gs1.drop_last(), gs2.drop_last()));
        assert forall|g: int, m: int| 0 <= g < n && 0 <= m < gs1.drop_last()[g].members@.len() implies #[trigger] gs1.drop_last()[g].members@[m]
            < vs1.len() by {
            assert(gs1[g].members@[m] < vs1.len());
        }
        lemma_group_texts(kind, vs1, vs2, gs1.drop_last(), gs2.drop_last());
    }
}

/// Any two analyses of one closed enumeration give the same text.
pub proof fn lemma_value_enum_text_unique(ve1: ValueEnum, ve2: ValueEnum, kind: Seq<char>, es: Seq<Enumerant>)
    requires
        ve1.models(kind, es),
        ve2.models(kind, es),
    ensures
        value_enum_text(kind, ve1) == value_enum_text(kind, ve2),
{
    lemma_analysis_unique(ve1, ve2, kind, es);
    let (vs1, vs2) = (ve1.variants@, ve2.variants@);
    assert forall|a: int| 0 <= a < vs1.len() implies #[trigger] vs1[a].value == vs2[a].value && vs1[a].name@
        == vs2[a].name@ by {
        assert(vs1[a].source == vs2[a].source);
    }
    lemma_variant_texts(kind, vs1, vs2);
    assert forall|a: int| 0 <= a < ve1.aliases@.len() implies #[trigger] ve1.aliases@[a].target == ve2.aliases@[a].target
        && ve1.aliases@[a].target < vs1.len() && ve1.aliases@[a].name@ == ve2.aliases@[a].name@ by {
        assert(ve1.aliases@[a].source == ve2.aliases@[a].source);
        assert(ve1.aliases@[a].source < es.len());
    }
    lemma_alias_texts(kind, vs1, vs2, ve1.aliases@, ve2.aliases@);
    lemma_group_texts(kind, vs1, vs2, ve1.groups@, ve2.groups@);
}

proof fn lemma_kinds_text(ks: Seq<OperandKind>, ves1: Seq<ValueEnum>, ves2: Seq<ValueEnum>)
    requires
        all_analysed(ks, ves1),
        all_analysed(ks, ves2),
    ensures
        kinds_text(ks, ves1) == kinds_text(ks, ves2),
    decreases ks.len(),
{
    if ks.len() > 0 {
        let n = ks.len() - 1;
        assert(analysed(ks[n], ves1[n]) && analysed(ks[n], ves2[n]));
        if ks[n].category == crate::grammar::Category::ValueEnum {
            lemma_value_enum_text_unique(ves1[n], ves2[n], ks[n].kind@, ks[n].enumerants@);
        }
        assert(kind_text(ks.last(), ves1[n]) == kind_text(ks.last(), ves2[n]));
        assert forall|i: int| 0 <= i < n implies #[trigger] analysed(ks.drop_last()[i], ves1.take(n)[i]) by {
            assert(analysed(ks[i], ves1[i]));
        }
        assert forall|i: int| 0 <= i < n implies #[trigger] analysed(ks.drop_last()[i], ves2.take(n)[i]) by {
            assert(analysed(ks[i], ves2[i]));
        }
        lemma_kinds_text(ks.drop_last(), ves1.take(n), ves2.take(n));
    }
}

/// Generation is deterministic: whatever analyses the header was produced
/// with, the same grammar yields the same text.
pub proof fn lemma_generation_deterministic(g: Grammar, ves1: Seq<ValueEnum>, ves2: Seq<ValueEnum>)
    requires
        all_analysed(g.operand_kinds@, ves1),
        all_analysed(g.operand_kinds@, ves2),
    ensures
        header_text(g, ves1) == header_text(g, ves2),
{
    lemma_kinds_text(g.operand_kinds@, ves1, ves2);
}

} // verus!
