//! Analysis of a closed-enumeration operand kind: canonical variants, alias
//! bindings, capability groups and numeric decode.
use vstd::prelude::*;
use crate::grammar::{Enumerant, OperandKind, names_view};
use crate::order::{lemma_names_lt_irreflexive, lemma_names_lt_total, lemma_names_lt_transitive, names_less, names_lt};

verus! {

/// Enumerant `i` of `es` is the first one declared with its discriminator.
pub open spec fn canonical_at(es: Seq<Enumerant>, i: int) -> bool {
    0 <= i < es.len() && forall|j: int| 0 <= j < i ==> #[trigger] es[j].value != es[i].value
}

/// The name of the canonical variant of an enumerant. The kind `Dim` prefixes
/// its own name, since its symbols may start with a digit.
pub open spec fn variant_name(kind: Seq<char>, symbol: Seq<char>) -> Seq<char> {
    if kind == "Dim"@ {
        "Dim"@ + symbol
    } else {
        symbol
    }
}

/// Variant `a` is a member of group `g`.
pub open spec fn in_group(gs: Seq<CapGroup>, g: int, a: int) -> bool {
    exists|m: int| 0 <= m < gs[g].members@.len() && #[trigger] gs[g].members@[m] == a
}

/// Variant `a` is a member of some group.
pub open spec fn grouped(gs: Seq<CapGroup>, a: int) -> bool {
    exists|g: int| 0 <= g < gs.len() && #[trigger] in_group(gs, g, a)
}

/// The groups `gs` partition the first `count` variants of `vs` by exact
/// capability list, each group listing its members in ascending order, the
/// groups ordered by capability list.
pub open spec fn groups_partition(gs: Seq<CapGroup>, vs: Seq<Variant>, es: Seq<Enumerant>, count: int) -> bool {
    &&& forall|g: int| 0 <= g < gs.len() ==> #[trigger] gs[g].members@.len() > 0
    &&& forall|g: int, m: int|
        0 <= g < gs.len() && 0 <= m < gs[g].members@.len() ==> {
            &&& #[trigger] gs[g].members@[m] < count
            &&& es[vs[gs[g].members@[m] as int].source as int].caps() == names_view(gs[g].capabilities@)
        }
    &&& forall|g: int, m1: int, m2: int|
        0 <= g < gs.len() && 0 <= m1 < m2 < gs[g].members@.len() ==> #[trigger] gs[g].members@[m1]
            < #[trigger] gs[g].members@[m2]
    &&& forall|g1: int, g2: int|
        0 <= g1 < gs.len() && 0 <= g2 < gs.len() && g1 != g2 ==> names_view(#[trigger] gs[g1].capabilities@)
            != names_view(#[trigger] gs[g2].capabilities@)
    &&& forall|g1: int, g2: int|
        0 <= g1 < g2 < gs.len() ==> names_lt(
            names_view(#[trigger] gs[g1].capabilities@),
            names_view(#[trigger] gs[g2].capabilities@),
        )
    &&& forall|a: int| 0 <= a < count ==> #[trigger] grouped(gs, a)
}

/// A canonical variant: the first enumerant declared with its discriminator.
#[derive(Clone, Debug)]
pub struct Variant {
    pub name: String,
    pub value: u32,
    /// Index of the enumerant it comes from.
    pub source: usize,
}

/// An alias: a later enumerant bound to the canonical variant of its value.
#[derive(Clone, Debug)]
pub struct Alias {
    pub name: String,
    /// Index of the enumerant it comes from.
    pub source: usize,
    /// Index of the canonical variant it is bound to.
    pub target: usize,
}

/// Canonical variants that share one capability list.
#[derive(Clone, Debug)]
pub struct CapGroup {
    pub capabilities: Vec<String>,
    /// Indexes of the variants in the group, ascending.
    pub members: Vec<usize>,
}

/// The analysed form of a closed-enumeration operand kind.
#[derive(Clone, Debug)]
pub struct ValueEnum {
    pub variants: Vec<Variant>,
    pub aliases: Vec<Alias>,
    pub groups: Vec<CapGroup>,
}

/// The variants `vs` are the canonical enumerants among the first `n` of
/// `es`, in declaration order.
pub open spec fn variants_model(vs: Seq<Variant>, kind: Seq<char>, es: Seq<Enumerant>, n: int) -> bool {
    &&& forall|a: int|
        0 <= a < vs.len() ==> {
            &&& #[trigger] vs[a].source < n
            &&& canonical_at(es, vs[a].source as int)
            &&& vs[a].value == es[vs[a].source as int].value
            &&& vs[a].name@ == variant_name(kind, es[vs[a].source as int].symbol@)
        }
    &&& forall|a: int, b: int| 0 <= a < b < vs.len() ==> #[trigger] vs[a].source < #[trigger] vs[b].source
    &&& forall|i: int| 0 <= i < n && #[trigger] canonical_at(es, i) ==> exists|a: int| 0 <= a < vs.len() && #[trigger] vs[a].source == i
}

/// The aliases `als` are the other enumerants among the first `n` of `es`, in
/// declaration order, each bound to the variant of its value.
pub open spec fn aliases_model(als: Seq<Alias>, vs: Seq<Variant>, es: Seq<Enumerant>, n: int) -> bool {
    &&& forall|a: int|
        0 <= a < als.len() ==> {
            &&& #[trigger] als[a].source < n
            &&& !canonical_at(es, als[a].source as int)
            &&& als[a].target < vs.len()
            &&& vs[als[a].target as int].value == es[als[a].source as int].value
            &&& als[a].name@ == es[als[a].source as int].symbol@
        }
    &&& forall|a: int, b: int| 0 <= a < b < als.len() ==> #[trigger] als[a].source < #[trigger] als[b].source
    &&& forall|i: int|
        0 <= i < n && !canonical_at(es, i) ==> exists|a: int| 0 <= a < als.len() && #[trigger] als[a].source == i
}

impl ValueEnum {
    /// This is the analysis of the enumerants `es` of the kind named `kind`.
    pub open spec fn models(self, kind: Seq<char>, es: Seq<Enumerant>) -> bool {
        &&& self.variants@.len() <= es.len()
        &&& variants_model(self.variants@, kind, es, es.len() as int)
        &&& aliases_model(self.aliases@, self.variants@, es, es.len() as int)
        &&& groups_partition(self.groups@, self.variants@, es, self.variants@.len() as int)
    }
}

/// Every enumerant shares its discriminator with a canonical one declared no
/// later.
pub proof fn lemma_canonical_before(es: Seq<Enumerant>, i: int)
    requires
        0 <= i < es.len(),
    ensures
        exists|j: int| 0 <= j <= i && #[trigger] canonical_at(es, j) && es[j].value == es[i].value,
    decreases i,
{
    if !canonical_at(es, i) {
        let k = choose|k: int| 0 <= k < i && #[trigger] es[k].value == es[i].value;
        lemma_canonical_before(es, k);
    } else {
        assert(canonical_at(es, i));
    }
}

/// Whether two name lists are equal, element by element.
pub fn same_names(a: &Vec<String>, b: &Vec<String>) -> (r: bool)
    ensures
        r == (names_view(a@) == names_view(b@)),
{
    if a.len() != b.len() {
        assert(names_view(a@).len() != names_view(b@).len());
        return false;
    }
    let mut i: usize = 0;
    while i < a.len()
        invariant
            a@.len() == b@.len(),
            i <= a@.len(),
            forall|j: int| 0 <= j < i ==> #[trigger] a@[j]@ == b@[j]@,
        decreases a@.len() - i,
    {
        if a[i] != b[i] {
            assert(names_view(a@)[i as int] != names_view(b@)[i as int]);
            return false;
        }
        i += 1;
    }
    assert(names_view(a@) =~= names_view(b@));
    true
}

/// A copy of a name list.
pub fn copy_names(v: &Vec<String>) -> (r: Vec<String>)
    ensures
        names_view(r@) == names_view(v@),
{
    let mut r: Vec<String> = Vec::new();
    let mut i: usize = 0;
    while i < v.len()
        invariant
            i <= v@.len(),
            names_view(r@) == names_view(v@.subrange(0, i as int)),
        decreases v@.len() - i,
    {
        let ghost before = r@;
        r.push(v[i].clone());
        proof {
            assert(names_view(r@) =~= names_view(before).push(v@[i as int]@));
            assert(names_view(v@.subrange(0, i + 1)) =~= names_view(v@.subrange(0, i as int)).push(
                v@[i as int]@,
            ));
        }
        i += 1;
    }
    assert(v@.subrange(0, i as int) =~= v@);
    r
}

/// The group whose capability list equals `caps`, if there is one.
fn find_group(gs: &Vec<CapGroup>, caps: &Vec<String>) -> (r: Option<usize>)
    ensures
        r matches Some(g) ==> g < gs@.len() && names_view(gs@[g as int].capabilities@) == names_view(caps@),
        r is None ==> forall|g: int| 0 <= g < gs@.len() ==> names_view(#[trigger] gs@[g].capabilities@) != names_view(caps@),
{
    let mut g: usize = 0;
    while g < gs.len()
        invariant
            g <= gs@.len(),
            forall|h: int| 0 <= h < g ==> names_view(#[trigger] gs@[h].capabilities@) != names_view(caps@),
        decreases gs@.len() - g,
    {
        if same_names(&gs[g].capabilities, caps) {
            return Some(g);
        }
        g += 1;
    }
    None
}

/// Partitions the variants into groups of equal capability lists. Groups
/// come in the lexicographic order of their capability lists.
pub fn group_variants(vs: &Vec<Variant>, es: &Vec<Enumerant>) -> (gs: Vec<CapGroup>)
    requires
        forall|a: int| 0 <= a < vs@.len() ==> #[trigger] vs@[a].source < es@.len(),
    ensures
        groups_partition(gs@, vs@, es@, vs@.len() as int),
{
    let mut gs: Vec<CapGroup> = Vec::new();
    let mut a: usize = 0;
    while a < vs.len()
        invariant
            a <= vs@.len(),
            forall|b: int| 0 <= b < vs@.len() ==> #[trigger] vs@[b].source < es@.len(),
            groups_partition(gs@, vs@, es@, a as int),
        decreases vs@.len() - a,
    {
        let caps = &es[vs[a].source].capabilities;
        let ghost old_gs = gs@;
        match find_group(&gs, caps) {
            Some(g) => {
                let mut members = gs[g].members.clone();
                assert(members@ =~= old_gs[g as int].members@);
                let ghost old_members = members@;
                members.push(a);
                let group = CapGroup { capabilities: copy_names(&gs[g].capabilities), members };
                gs.set(g, group);
                proof {
                    assert forall|h: int, m: int|
                        0 <= h < gs@.len() && 0 <= m < gs@[h].members@.len() implies #[trigger] gs@[h].members@[m]
                            < a + 1 && es@[vs@[gs@[h].members@[m] as int].source as int].caps()
                            == names_view(gs@[h].capabilities@) by {
                        if h != g {
                            assert(gs@[h] == old_gs[h]);
                        } else if m < old_members.len() {
                            assert(gs@[h].members@[m] == old_gs[h].members@[m]);
                        }
                    }
                    assert forall|b: int| 0 <= b < a + 1 implies #[trigger] grouped(gs@, b) by {
                        if b < a {
                            assert(grouped(old_gs, b));
                            let h = choose|h: int| 0 <= h < old_gs.len() && #[trigger] in_group(old_gs, h, b);
                            let m = choose|m: int| 0 <= m < old_gs[h].members@.len() && #[trigger] old_gs[h].members@[m] == b;
                            if h != g {
                                assert(gs@[h] == old_gs[h]);
                            }
                            assert(gs@[h].members@[m] == b);
                            assert(in_group(gs@, h, b));
                        } else {
                            assert(gs@[g as int].members@[old_members.len() as int] == b);
                            assert(in_group(gs@, g as int, b));
                        }
                    }
                    assert forall|h1: int, h2: int|
                        0 <= h1 < gs@.len() && 0 <= h2 < gs@.len() && h1 != h2 implies names_view(
                            #[trigger] gs@[h1].capabilities@,
                        ) != names_view(#[trigger] gs@[h2].capabilities@) by {
                        assert(names_view(gs@[h1].capabilities@) == names_view(old_gs[h1].capabilities@));
                        assert(names_view(gs@[h2].capabilities@) == names_view(old_gs[h2].capabilities@));
                    }
                    assert forall|h: int, m1: int, m2: int|
                        0 <= h < gs@.len() && 0 <= m1 < m2 < gs@[h].members@.len() implies #[trigger] gs@[h].members@[m1]
                            < #[trigger] gs@[h].members@[m2] by {
                        if h != g {
                            assert(gs@[h] == old_gs[h]);
                        } else {
                            assert(gs@[h].members@[m1] == old_gs[h].members@[m1]);
                            assert(old_gs[h].members@[m1] < a);
                        }
                    }
                    assert forall|h: int| 0 <= h < gs@.len() implies #[trigger] gs@[h].members@.len() > 0 by {
                        if h != g {
                            assert(gs@[h] == old_gs[h]);
                        }
                    }
                    assert forall|h1: int, h2: int| 0 <= h1 < h2 < gs@.len() implies names_lt(
                        names_view(#[trigger] gs@[h1].capabilities@),
                        names_view(#[trigger] gs@[h2].capabilities@),
                    ) by {
                        assert(names_view(gs@[h1].capabilities@) == names_view(old_gs[h1].capabilities@));
                        assert(names_view(gs@[h2].capabilities@) == names_view(old_gs[h2].capabilities@));
                    }
                }
            },
            None => {
                let mut p: usize = 0;
                while p < gs.len() && names_less(&gs[p].capabilities, caps)
                    invariant
                        p <= gs@.len(),
                        gs@ == old_gs,
                        forall|h: int| 0 <= h < p ==> names_lt(
                            names_view(#[trigger] gs@[h].capabilities@),
                            names_view(caps@),
                        ),
                    decreases gs@.len() - p,
                {
                    p += 1;
                }
                let ghost c = names_view(caps@);
                proof {
                    assert forall|h: int| p <= h < old_gs.len() implies names_lt(
                        c,
                        names_view(#[trigger] old_gs[h].capabilities@),
                    ) by {
                        let cp = names_view(old_gs[p as int].capabilities@);
                        lemma_names_lt_total(cp, c);
                        if h > p {
                            lemma_names_lt_transitive(c, cp, names_view(old_gs[h].capabilities@));
                        }
                    }
                }
                let mut members: Vec<usize> = Vec::new();
                members.push(a);
                let group = CapGroup { capabilities: copy_names(caps), members };
                gs.insert(p, group);
                proof {
                    let n = old_gs.len() as int;
                    let p = p as int;
                    assert(gs@[p] == group);
                    assert forall|h: int| 0 <= h < gs@.len() && h != p implies #[trigger] gs@[h] == old_gs[if h < p {
                        h
                    } else {
                        h - 1
                    }] by {}
                    assert forall|h: int, m: int|
                        0 <= h < gs@.len() && 0 <= m < gs@[h].members@.len() implies #[trigger] gs@[h].members@[m]
                            < a + 1 && es@[vs@[gs@[h].members@[m] as int].source as int].caps()
                            == names_view(gs@[h].capabilities@) by {
                        if h < p {
                            assert(gs@[h] == old_gs[h]);
                        } else if h > p {
                            assert(gs@[h] == old_gs[h - 1]);
                        }
                    }
                    assert forall|b: int| 0 <= b < a + 1 implies #[trigger] grouped(gs@, b) by {
                        if b < a {
                            assert(grouped(old_gs, b));
                            let h = choose|h: int| 0 <= h < old_gs.len() && #[trigger] in_group(old_gs, h, b);
                            let m = choose|m: int| 0 <= m < old_gs[h].members@.len() && #[trigger] old_gs[h].members@[m] == b;
                            let k = if h < p { h } else { h + 1 };
                            assert(gs@[k] == old_gs[h]);
                            assert(gs@[k].members@[m] == b);
                            assert(in_group(gs@, k, b));
                        } else {
                            assert(gs@[p].members@[0] == b);
                            assert(in_group(gs@, p, b));
                        }
                    }
                    assert forall|h1: int, h2: int| 0 <= h1 < h2 < gs@.len() implies names_lt(
                        names_view(#[trigger] gs@[h1].capabilities@),
                        names_view(#[trigger] gs@[h2].capabilities@),
                    ) by {
                        if h1 < p {
                            assert(gs@[h1] == old_gs[h1]);
                        } else if h1 > p {
                            assert(gs@[h1] == old_gs[h1 - 1]);
                        }
                        if h2 < p {
                            assert(gs@[h2] == old_gs[h2]);
                        } else if h2 > p {
                            assert(gs@[h2] == old_gs[h2 - 1]);
                        }
                    }
                    assert forall|h1: int, h2: int|
                        0 <= h1 < gs@.len() && 0 <= h2 < gs@.len() && h1 != h2 implies names_view(
                            #[trigger] gs@[h1].capabilities@,
                        ) != names_view(#[trigger] gs@[h2].capabilities@) by {
                        if h1 < h2 {
                            assert(names_lt(names_view(gs@[h1].capabilities@), names_view(gs@[h2].capabilities@)));
                        } else {
                            assert(names_lt(names_view(gs@[h2].capabilities@), names_view(gs@[h1].capabilities@)));
                        }
                        lemma_names_lt_irreflexive(names_view(gs@[h1].capabilities@));
                    }
                    assert forall|h: int, m1: int, m2: int|
                        0 <= h < gs@.len() && 0 <= m1 < m2 < gs@[h].members@.len() implies #[trigger] gs@[h].members@[m1]
                            < #[trigger] gs@[h].members@[m2] by {
                        if h < p {
                            assert(gs@[h] == old_gs[h]);
                        } else if h > p {
                            assert(gs@[h] == old_gs[h - 1]);
                        }
                    }
                    assert forall|h: int| 0 <= h < gs@.len() implies #[trigger] gs@[h].members@.len() > 0 by {
                        if h < p {
                            assert(gs@[h] == old_gs[h]);
                        } else if h > p {
                            assert(gs@[h] == old_gs[h - 1]);
                        }
                    }
                }
            },
        }
        a += 1;
    }
    gs
}

/// The index of the variant with discriminator `value`, if there is one.
pub fn find_variant(vs: &Vec<Variant>, value: u32) -> (r: Option<usize>)
    ensures
        r matches Some(k) ==> k < vs@.len() && vs@[k as int].value == value,
        r is None ==> forall|k: int| 0 <= k < vs@.len() ==> #[trigger] vs@[k].value != value,
{
    let mut k: usize = 0;
    while k < vs.len()
        invariant
            k <= vs@.len(),
            forall|h: int| 0 <= h < k ==> #[trigger] vs@[h].value != value,
        decreases vs@.len() - k,
    {
        if vs[k].value == value {
            return Some(k);
        }
        k += 1;
    }
    None
}

/// The name of the canonical variant of an enumerant with symbol `symbol`
/// in the kind named `kind`.
pub fn make_variant_name(kind: &String, symbol: &String) -> (r: String)
    ensures
        r@ == variant_name(kind@, symbol@),
{
    let dim = String::from_str("Dim");
    if kind.eq(&dim) {
        let mut name = String::from_str("Dim");
        name.append(symbol.as_str());
        name
    } else {
        symbol.clone()
    }
}

impl ValueEnum {
    /// Analyses a closed-enumeration kind: the first enumerant declared with
    /// each discriminator becomes a canonical variant, every later one an alias
    /// of it, and the canonical variants are grouped by capability list.
    pub fn analyze(kind: &OperandKind) -> (r: ValueEnum)
        ensures
            r.models(kind.kind@, kind.enumerants@),
    {
        let es = &kind.enumerants;
        let mut variants: Vec<Variant> = Vec::new();
        let mut aliases: Vec<Alias> = Vec::new();
        let mut i: usize = 0;
        while i < es.len()
            invariant
                i <= es@.len(),
                variants@.len() <= i,
                variants_model(variants@, kind.kind@, es@, i as int),
                aliases_model(aliases@, variants@, es@, i as int),
            decreases es@.len() - i,
        {
            let e = &es[i];
            match find_variant(&variants, e.value) {
                Some(k) => {
                    let ghost old_aliases = aliases@;
                    assert(es@[variants@[k as int].source as int].value == e.value);
                    assert(!canonical_at(es@, i as int));
                    aliases.push(Alias { name: e.symbol.clone(), source: i, target: k });
                    proof {
                        assert forall|j: int| 0 <= j < i + 1 && !canonical_at(es@, j) implies exists|a: int|
                            0 <= a < aliases@.len() && #[trigger] aliases@[a].source == j by {
                            if j < i {
                                let a = choose|a: int| 0 <= a < old_aliases.len() && #[trigger] old_aliases[a].source == j;
                                assert(aliases@[a] == old_aliases[a]);
                            } else {
                                assert(aliases@[old_aliases.len() as int].source == j);
                            }
                        }
                        assert forall|a: int| 0 <= a < aliases@.len() implies #[trigger] aliases@[a].source < i + 1 && !canonical_at(es@, aliases@[a].source as int)
                            && aliases@[a].target < variants@.len()
                            && variants@[aliases@[a].target as int].value == es@[aliases@[a].source as int].value
                            && aliases@[a].name@ == es@[aliases@[a].source as int].symbol@ by {
                            if a < old_aliases.len() {
                                assert(aliases@[a] == old_aliases[a]);
                            }
                        }
                        assert forall|a: int, b: int| 0 <= a < b < aliases@.len() implies #[trigger] aliases@[a].source < #[trigger] aliases@[b].source by {
                            assert(aliases@[a] == old_aliases[a]);
                            if b < old_aliases.len() {
                                assert(aliases@[b] == old_aliases[b]);
                            }
                        }
                    }
                },
                None => {
                    proof {
                        assert forall|j: int| 0 <= j < i implies #[trigger] es@[j].value != es@[i as int].value by {
                            if es@[j].value == es@[i as int].value {
                                lemma_canonical_before(es@, j);
                                let c = choose|c: int| 0 <= c <= j && #[trigger] canonical_at(es@, c) && es@[c].value == es@[j].value;
                                let a = choose|a: int| 0 <= a < variants@.len() && #[trigger] variants@[a].source == c;
                                assert(variants@[a].value != e.value);
                            }
                        }
                        assert(canonical_at(es@, i as int));
                    }
                    let ghost old_variants = variants@;
                    let name = make_variant_name(&kind.kind, &e.symbol);
                    variants.push(Variant { name, value: e.value, source: i });
                    proof {
                        assert forall|j: int| 0 <= j < i + 1 && #[trigger] canonical_at(es@, j) implies exists|a: int|
                            0 <= a < variants@.len() && #[trigger] variants@[a].source == j by {
                            if j < i {
                                let a = choose|a: int| 0 <= a < old_variants.len() && #[trigger] old_variants[a].source == j;
                                assert(variants@[a] == old_variants[a]);
                            } else {
                                assert(variants@[old_variants.len() as int].source == j);
                            }
                        }
                        assert forall|a: int| 0 <= a < variants@.len() implies #[trigger] variants@[a].source < i + 1
                            && canonical_at(es@, variants@[a].source as int)
                            && variants@[a].value == es@[variants@[a].source as int].value
                            && variants@[a].name@ == variant_name(kind.kind@, es@[variants@[a].source as int].symbol@) by {
                            if a < old_variants.len() {
                                assert(variants@[a] == old_variants[a]);
                            }
                        }
                        assert forall|a: int, b: int| 0 <= a < b < variants@.len() implies #[trigger] variants@[a].source < #[trigger] variants@[b].source by {
                            assert(variants@[a] == old_variants[a]);
                            if b < old_variants.len() {
                                assert(variants@[b] == old_variants[b]);
                            }
                        }
                        assert forall|a: int| 0 <= a < aliases@.len() implies #[trigger] aliases@[a].target < variants@.len()
                            && variants@[aliases@[a].target as int].value == es@[aliases@[a].source as int].value by {
                            assert(aliases@[a].source < i);
                            assert(variants@[aliases@[a].target as int] == old_variants[aliases@[a].target as int]);
                        }
                    }
                },
            }
            i += 1;
        }
        let groups = group_variants(&variants, es);
        ValueEnum { variants, aliases, groups }
    }
}

impl ValueEnum {
    /// Decodes a raw discriminator to the index of its canonical variant,
    /// or `None` when no variant has it.
    pub fn decode(&self, n: u32) -> (r: Option<usize>)
        ensures
            r matches Some(k) ==> k < self.variants@.len() && self.variants@[k as int].value == n,
            r is None ==> forall|k: int| 0 <= k < self.variants@.len() ==> #[trigger] self.variants@[k].value != n,
    {
        find_variant(&self.variants, n)
    }

    /// The index of the capability group that holds variant `a`, if any.
    pub fn capability_group(&self, a: usize) -> (r: Option<usize>)
        ensures
            r matches Some(g) ==> g < self.groups@.len() && in_group(self.groups@, g as int, a as int),
            r is None ==> forall|g: int| 0 <= g < self.groups@.len() ==> !#[trigger] in_group(self.groups@, g, a as int),
    {
        let gs = &self.groups;
        let mut g: usize = 0;
        while g < gs.len()
            invariant
                g <= gs@.len(),
                gs@ == self.groups@,
                forall|h: int| 0 <= h < g ==> !#[trigger] in_group(gs@, h, a as int),
            decreases gs@.len() - g,
        {
            let members = &gs[g].members;
            let mut m: usize = 0;
            while m < members.len()
                invariant
                    m <= members@.len(),
                    g < gs@.len(),
                    gs@ == self.groups@,
                    members@ == gs@[g as int].members@,
                    forall|k: int| 0 <= k < m ==> #[trigger] members@[k] != a,
                decreases members@.len() - m,
            {
                if members[m] == a {
                    assert(in_group(gs@, g as int, a as int));
                    return Some(g);
                }
                m += 1;
            }
            g += 1;
        }
        None
    }

    /// The capabilities that variant `a` requires: those of its group.
    pub fn required_capabilities(&self, a: usize) -> (r: Option<&Vec<String>>)
        ensures
            r matches Some(caps) ==> exists|g: int|
                0 <= g < self.groups@.len() && #[trigger] in_group(self.groups@, g, a as int) && caps
                    == &self.groups@[g].capabilities,
            r is None ==> forall|g: int| 0 <= g < self.groups@.len() ==> !#[trigger] in_group(self.groups@, g, a as int),
    {
        match self.capability_group(a) {
            Some(g) => Some(&self.groups[g].capabilities),
            None => None,
        }
    }
}

/// Among the enumerants that share a discriminator, exactly one variant
/// carries it, and it comes from the first of them; every later one is an
/// alias bound to that variant.
pub proof fn lemma_alias_canonical(ve: ValueEnum, kind: Seq<char>, es: Seq<Enumerant>, i: int)
    requires
        ve.models(kind, es),
        0 <= i < es.len(),
    ensures
        exists|a: int|
            0 <= a < ve.variants@.len() && #[trigger] ve.variants@[a].value == es[i].value
                && ve.variants@[a].source <= i,
        forall|a: int, b: int|
            0 <= a < ve.variants@.len() && 0 <= b < ve.variants@.len() && #[trigger] ve.variants@[a].value
                == es[i].value && #[trigger] ve.variants@[b].value == es[i].value ==> a == b,
        canonical_at(es, i) ==> exists|a: int| 0 <= a < ve.variants@.len() && #[trigger] ve.variants@[a].source == i,
        !canonical_at(es, i) ==> exists|al: int|
            0 <= al < ve.aliases@.len() && #[trigger] ve.aliases@[al].source == i
                && ve.variants@[ve.aliases@[al].target as int].value == es[i].value,
{
    let vs = ve.variants@;
    lemma_canonical_before(es, i);
    let c = choose|c: int| 0 <= c <= i && #[trigger] canonical_at(es, c) && es[c].value == es[i].value;
    let a = choose|a: int| 0 <= a < vs.len() && #[trigger] vs[a].source == c;
    assert(vs[a].value == es[i].value);
    assert forall|a: int, b: int|
        0 <= a < vs.len() && 0 <= b < vs.len() && #[trigger] vs[a].value == es[i].value
            && #[trigger] vs[b].value == es[i].value implies a == b by {
        let sa = vs[a].source as int;
        let sb = vs[b].source as int;
        assert(canonical_at(es, sa) && canonical_at(es, sb));
        if sa < sb {
            assert(es[sa].value != es[sb].value);
        } else if sb < sa {
            assert(es[sb].value != es[sa].value);
        } else if a < b {
            assert(vs[a].source < vs[b].source);
        } else if b < a {
            assert(vs[b].source < vs[a].source);
        }
    }
    if !canonical_at(es, i) {
        let al = choose|al: int| 0 <= al < ve.aliases@.len() && #[trigger] ve.aliases@[al].source == i;
        assert(ve.aliases@[al].source < es.len());
    }
}

/// Decoding is the inverse of the declared discriminators: a variant carries
/// `n` exactly when some enumerant is declared with it, and that variant comes
/// from the first such enumerant.
pub proof fn lemma_decode_inverse(ve: ValueEnum, kind: Seq<char>, es: Seq<Enumerant>, n: u32)
    requires
        ve.models(kind, es),
    ensures
        (exists|a: int| 0 <= a < ve.variants@.len() && #[trigger] ve.variants@[a].value == n) <==> (exists|i: int|
            0 <= i < es.len() && #[trigger] es[i].value == n),
        forall|a: int|
            0 <= a < ve.variants@.len() && #[trigger] ve.variants@[a].value == n ==> {
                let s = ve.variants@[a].source as int;
                &&& 0 <= s < es.len()
                &&& es[s].value == n
                &&& forall|j: int| 0 <= j < s ==> #[trigger] es[j].value != n
            },
{
    let vs = ve.variants@;
    if exists|i: int| 0 <= i < es.len() && #[trigger] es[i].value == n {
        let i = choose|i: int| 0 <= i < es.len() && #[trigger] es[i].value == n;
        lemma_alias_canonical(ve, kind, es, i);
    }
    if exists|a: int| 0 <= a < vs.len() && #[trigger] vs[a].value == n {
        let a = choose|a: int| 0 <= a < vs.len() && #[trigger] vs[a].value == n;
        assert(vs[a].source < es.len());
        assert(es[vs[a].source as int].value == n);
    }
    assert forall|a: int| 0 <= a < vs.len() && #[trigger] vs[a].value == n implies {
        let s = vs[a].source as int;
        &&& 0 <= s < es.len()
        &&& es[s].value == n
        &&& forall|j: int| 0 <= j < s ==> #[trigger] es[j].value != n
    } by {
        assert(vs[a].source < es.len());
    }
}

/// Every canonical variant belongs to exactly one capability group, and that
/// group's list is the variant's own capability list.
pub proof fn lemma_capability_partition(ve: ValueEnum, kind: Seq<char>, es: Seq<Enumerant>, a: int)
    requires
        ve.models(kind, es),
        0 <= a < ve.variants@.len(),
    ensures
        exists|g: int| 0 <= g < ve.groups@.len() && #[trigger] in_group(ve.groups@, g, a),
        forall|g1: int, g2: int|
            0 <= g1 < ve.groups@.len() && 0 <= g2 < ve.groups@.len() && #[trigger] in_group(ve.groups@, g1, a)
                && #[trigger] in_group(ve.groups@, g2, a) ==> g1 == g2,
        forall|g: int|
            0 <= g < ve.groups@.len() && #[trigger] in_group(ve.groups@, g, a) ==> names_view(
                ve.groups@[g].capabilities@,
            ) == es[ve.variants@[a].source as int].caps(),
{
    let gs = ve.groups@;
    assert(grouped(gs, a));
    assert forall|g: int| 0 <= g < gs.len() && #[trigger] in_group(gs, g, a) implies names_view(
        gs[g].capabilities@,
    ) == es[ve.variants@[a].source as int].caps() by {
        let m = choose|m: int| 0 <= m < gs[g].members@.len() && #[trigger] gs[g].members@[m] == a;
        assert(gs[g].members@[m] < ve.variants@.len());
    }
    assert forall|g1: int, g2: int|
        0 <= g1 < gs.len() && 0 <= g2 < gs.len() && #[trigger] in_group(gs, g1, a) && #[trigger] in_group(gs, g2, a)
            implies g1 == g2 by {
        let m1 = choose|m: int| 0 <= m < gs[g1].members@.len() && #[trigger] gs[g1].members@[m] == a;
        let m2 = choose|m: int| 0 <= m < gs[g2].members@.len() && #[trigger] gs[g2].members@[m] == a;
        assert(gs[g1].members@[m1] < ve.variants@.len());
        assert(gs[g2].members@[m2] < ve.variants@.len());
        if g1 != g2 {
            assert(names_view(gs[g1].capabilities@) != names_view(gs[g2].capabilities@));
        }
    }
}

} // verus!
