//! Properties of identification and rendering that hold on every input.

use vstd::prelude::*;

use crate::cli::OutputKind;
use crate::data::{DataSetView, ModeView, PrototypeView};
use crate::matcher::{
    all_searched, by_commonness, commons_first, found, identified, matched_modes, record_of,
    rendered, shown, MatchRecordView, ReferenceView,
};
use crate::outside::case_insensitive_search;

verus! {

broadcast use {vstd::seq_lib::group_to_multiset_ensures, vstd::multiset::group_multiset_axioms};

/// Each part of the common-first order holds only modes of its kind.
pub proof fn lemma_by_commonness_kind(ms: Seq<ModeView>, commons: Seq<Seq<char>>, common: bool)
    ensures
        forall|i: int|
            0 <= i < by_commonness(ms, commons, common).len() ==> commons.contains(
                #[trigger] by_commonness(ms, commons, common)[i].name,
            ) == common,
    decreases ms.len(),
{
    if ms.len() > 0 {
        lemma_by_commonness_kind(ms.drop_last(), commons, common);
    }
}

/// Splitting by commonness keeps every mode, as often as it occurs.
proof fn lemma_by_commonness_split(ms: Seq<ModeView>, commons: Seq<Seq<char>>)
    ensures
        by_commonness(ms, commons, true).to_multiset().add(
            by_commonness(ms, commons, false).to_multiset(),
        ) =~= ms.to_multiset(),
    decreases ms.len(),
{
    if ms.len() == 0 {
        assert(by_commonness(ms, commons, true) =~= Seq::<ModeView>::empty());
        assert(by_commonness(ms, commons, false) =~= Seq::<ModeView>::empty());
        assert(ms =~= Seq::<ModeView>::empty());
    } else {
        lemma_by_commonness_split(ms.drop_last(), commons);
        ms.lemma_add_last_back();
    }
}

/// Identification only reorders what matched: the common modes come first,
/// then the others, each part in the order of the data, and together they
/// hold exactly the matched modes, each as often as it matched.
pub proof fn lemma_commons_first_is_a_stable_partition(ms: Seq<ModeView>, commons: Seq<Seq<char>>)
    ensures
        commons_first(ms, commons).to_multiset() =~= ms.to_multiset(),
        commons_first(ms, commons).len() == ms.len(),
        forall|i: int|
            0 <= i < by_commonness(ms, commons, true).len() ==> commons.contains(
                #[trigger] commons_first(ms, commons)[i].name,
            ),
        forall|i: int|
            by_commonness(ms, commons, true).len() <= i < ms.len() ==> !commons.contains(
                #[trigger] commons_first(ms, commons)[i].name,
            ),
{
    lemma_by_commonness_split(ms, commons);
    vstd::seq_lib::lemma_multiset_commutative(
        by_commonness(ms, commons, true),
        by_commonness(ms, commons, false),
    );
    lemma_by_commonness_kind(ms, commons, true);
    lemma_by_commonness_kind(ms, commons, false);
    let front = by_commonness(ms, commons, true);
    let back = by_commonness(ms, commons, false);
    assert(commons_first(ms, commons).len() == commons_first(ms, commons).to_multiset().len());
    assert forall|i: int| front.len() <= i < ms.len() implies !commons.contains(
        #[trigger] commons_first(ms, commons)[i].name,
    ) by {
        assert(commons_first(ms, commons)[i] == back[i - front.len()]);
    }
}

/// Some mode matched among the first `n` prototypes exactly when one of them
/// with at least one mode was found.
proof fn lemma_matched_modes_nonempty(ps: Seq<PrototypeView>, hash: Seq<char>, n: nat)
    requires
        n <= ps.len(),
    ensures
        matched_modes(ps, hash, n).len() > 0 <==> exists|i: int|
            0 <= i < n && #[trigger] found(ps[i], hash) && ps[i].modes.len() > 0,
    decreases n,
{
    if n > 0 {
        lemma_matched_modes_nonempty(ps, hash, (n - 1) as nat);
        if found(ps[n - 1], hash) && ps[n - 1].modes.len() > 0 {
            assert(found(ps[n - 1], hash));
        }
    }
}

/// How many modes the prototypes before `n` whose regex finds `hash` have
/// together.
pub open spec fn matched_mode_count(ps: Seq<PrototypeView>, hash: Seq<char>, n: nat) -> nat
    decreases n,
{
    if n == 0 || n > ps.len() {
        0
    } else if found(ps[n - 1], hash) {
        matched_mode_count(ps, hash, (n - 1) as nat) + ps[n - 1].modes.len()
    } else {
        matched_mode_count(ps, hash, (n - 1) as nat)
    }
}

proof fn lemma_matched_modes_len(ps: Seq<PrototypeView>, hash: Seq<char>, n: nat)
    ensures
        matched_modes(ps, hash, n).len() == matched_mode_count(ps, hash, n),
    decreases n,
{
    if n > 0 && n <= ps.len() {
        lemma_matched_modes_len(ps, hash, (n - 1) as nat);
    }
}

/// Identifying finds as many modes as the prototypes whose regex finds the
/// hash have together.
pub proof fn lemma_identified_counts_matched_modes(rules: DataSetView, hash: Seq<char>)
    ensures
        identified(rules, hash).len() == matched_mode_count(
            rules.prototypes,
            hash,
            rules.prototypes.len(),
        ),
{
    let ms = matched_modes(rules.prototypes, hash, rules.prototypes.len());
    lemma_commons_first_is_a_stable_partition(ms, rules.commons);
    lemma_matched_modes_len(rules.prototypes, hash, rules.prototypes.len());
}

/// When every prototype has a mode, a hash is identified exactly when the
/// regex of some prototype finds it.
pub proof fn lemma_identified_iff_some_regex_finds(rules: DataSetView, hash: Seq<char>)
    requires
        forall|i: int|
            0 <= i < rules.prototypes.len() ==> #[trigger] rules.prototypes[i].modes.len() > 0,
    ensures
        identified(rules, hash).len() > 0 <==> exists|i: int|
            0 <= i < rules.prototypes.len() && #[trigger] found(rules.prototypes[i], hash),
{
    let ms = matched_modes(rules.prototypes, hash, rules.prototypes.len());
    lemma_commons_first_is_a_stable_partition(ms, rules.commons);
    lemma_matched_modes_nonempty(rules.prototypes, hash, rules.prototypes.len());
    if exists|i: int| 0 <= i < rules.prototypes.len() && #[trigger] found(rules.prototypes[i], hash) {
        let i = choose|i: int|
            0 <= i < rules.prototypes.len() && #[trigger] found(rules.prototypes[i], hash);
        assert(rules.prototypes[i].modes.len() > 0);
    }
}

/// When every prototype has a mode and every search succeeds (so that
/// `identify` gives `Ok`), nothing is identified exactly when every regex
/// answers that it does not find the hash.
pub proof fn lemma_unidentified_iff_every_regex_misses(rules: DataSetView, hash: Seq<char>)
    requires
        forall|i: int|
            0 <= i < rules.prototypes.len() ==> #[trigger] rules.prototypes[i].modes.len() > 0,
        all_searched(rules.prototypes, hash, rules.prototypes.len() as int),
    ensures
        identified(rules, hash).len() == 0 <==> forall|i: int|
            0 <= i < rules.prototypes.len() ==> #[trigger] case_insensitive_search(
                rules.prototypes[i].regex,
                hash,
            ) == Some(false),
{
    lemma_identified_iff_some_regex_finds(rules, hash);
    if identified(rules, hash).len() == 0 {
        assert forall|i: int| 0 <= i < rules.prototypes.len() implies #[trigger] case_insensitive_search(
            rules.prototypes[i].regex,
            hash,
        ) == Some(false) by {
            assert(case_insensitive_search(rules.prototypes[i].regex, hash) is Some);
            assert(!found(rules.prototypes[i], hash));
        }
    } else {
        let i = choose|i: int|
            0 <= i < rules.prototypes.len() && #[trigger] found(rules.prototypes[i], hash);
        assert(case_insensitive_search(rules.prototypes[i].regex, hash) == Some(true));
    }
}

/// The modes of `ms` that are not extended, in order.
pub open spec fn without_extended(ms: Seq<ModeView>) -> Seq<ModeView>
    decreases ms.len(),
{
    if ms.len() == 0 {
        Seq::empty()
    } else if !ms.last().extended {
        without_extended(ms.drop_last()).push(ms.last())
    } else {
        without_extended(ms.drop_last())
    }
}

/// Leaving out extended modes gives what showing every mode gives on the
/// modes that are not extended.
pub proof fn lemma_render_hides_only_extended(ms: Seq<ModeView>, kind: OutputKind)
    ensures
        rendered(ms, kind, false) == rendered(without_extended(ms), kind, true),
    decreases ms.len(),
{
    if ms.len() > 0 {
        lemma_render_hides_only_extended(ms.drop_last(), kind);
        if !ms.last().extended {
            let w = without_extended(ms.drop_last()).push(ms.last());
            assert(w.drop_last() =~= without_extended(ms.drop_last()));
        }
    }
}

/// `a` is `b` with some of its items left out, the rest in order.
pub open spec fn is_subsequence<A>(a: Seq<A>, b: Seq<A>) -> bool
    decreases b.len(),
{
    if b.len() == 0 {
        a.len() == 0
    } else if a.len() > 0 && a.last() == b.last() {
        is_subsequence(a.drop_last(), b.drop_last()) || is_subsequence(a, b.drop_last())
    } else {
        is_subsequence(a, b.drop_last())
    }
}

/// A subsequence is never longer.
pub proof fn lemma_subsequence_not_longer<A>(a: Seq<A>, b: Seq<A>)
    requires
        is_subsequence(a, b),
    ensures
        a.len() <= b.len(),
    decreases b.len(),
{
    if b.len() > 0 {
        if a.len() > 0 && a.last() == b.last() && is_subsequence(a.drop_last(), b.drop_last()) {
            lemma_subsequence_not_longer(a.drop_last(), b.drop_last());
        } else {
            lemma_subsequence_not_longer(a, b.drop_last());
        }
    }
}

/// Rendering without the extended modes gives, in order, some of the records
/// that rendering with them gives, never more; with no extended mode among
/// `ms` the two are the same.
pub proof fn lemma_render_without_extended_is_subsequence(ms: Seq<ModeView>, kind: OutputKind)
    ensures
        is_subsequence(rendered(ms, kind, false), rendered(ms, kind, true)),
        rendered(ms, kind, false).len() <= rendered(ms, kind, true).len(),
        (forall|i: int| 0 <= i < ms.len() ==> !(#[trigger] ms[i]).extended) ==> rendered(
            ms,
            kind,
            false,
        ) == rendered(ms, kind, true),
    decreases ms.len(),
{
    if ms.len() > 0 {
        let rest = ms.drop_last();
        lemma_render_without_extended_is_subsequence(rest, kind);
        let a = rendered(rest, kind, false);
        let b = rendered(rest, kind, true);
        let m = ms.last();
        if record_of(m, kind) is Some {
            let x = record_of(m, kind).unwrap();
            assert(b.push(x).drop_last() =~= b);
            if !m.extended {
                assert(a.push(x).drop_last() =~= a);
            }
        }
        if forall|i: int| 0 <= i < ms.len() ==> !(#[trigger] ms[i]).extended {
            assert forall|i: int| 0 <= i < rest.len() implies !(#[trigger] rest[i]).extended by {
                assert(rest[i] == ms[i]);
            }
            assert(!ms[ms.len() - 1].extended);
        }
    }
    lemma_subsequence_not_longer(rendered(ms, kind, false), rendered(ms, kind, true));
}

/// In `hc` output every reference is a hashcat number; in `jtr` output every
/// reference is a John the Ripper name; every record names a shown mode
/// that has such a reference.
pub proof fn lemma_rendered_references_follow_kind(
    ms: Seq<ModeView>,
    kind: OutputKind,
    extended: bool,
)
    ensures
        forall|i: int|
            0 <= i < rendered(ms, kind, extended).len() ==> match kind {
                OutputKind::Hashcat => #[trigger] rendered(ms, kind, extended)[i].reference is Hashcat,
                OutputKind::John => rendered(ms, kind, extended)[i].reference is John,
            },
        forall|i: int|
            #![trigger rendered(ms, kind, extended)[i]]
            0 <= i < rendered(ms, kind, extended).len() ==> exists|j: int|
                0 <= j < ms.len() && shown(ms[j], extended) && #[trigger] record_of(ms[j], kind)
                    == Some(rendered(ms, kind, extended)[i]),
    decreases ms.len(),
{
    if ms.len() > 0 {
        let rest = ms.drop_last();
        lemma_rendered_references_follow_kind(rest, kind, extended);
        let r = rendered(ms, kind, extended);
        assert forall|i: int| #![trigger r[i]] 0 <= i < r.len() implies exists|j: int|
            0 <= j < ms.len() && shown(ms[j], extended) && #[trigger] record_of(ms[j], kind)
                == Some(r[i]) by {
            if i < rendered(rest, kind, extended).len() {
                let j = choose|j: int|
                    0 <= j < rest.len() && shown(rest[j], extended) && #[trigger] record_of(
                        rest[j],
                        kind,
                    ) == Some(rendered(rest, kind, extended)[i]);
                assert(ms[j] == rest[j]);
                assert(record_of(ms[j], kind) == Some(r[i]));
            } else {
                assert(record_of(ms[ms.len() - 1], kind) == Some(r[i]));
            }
        }
    }
}

/// Whether a mode has a reference of `kind`: a hashcat number for `hc`, a
/// John the Ripper format for `jtr`.
pub open spec fn has_reference(kind: OutputKind) -> spec_fn(ModeView) -> bool {
    |m: ModeView|
        match kind {
            OutputKind::Hashcat => m.hashcat is Some,
            OutputKind::John => m.john is Some,
        }
}

/// Whether a mode is kept for `kind`: it has a reference of that kind and,
/// unless `extended` is asked for, it is not an extended mode.
pub open spec fn kept(kind: OutputKind, extended: bool) -> spec_fn(ModeView) -> bool {
    |m: ModeView| (extended || !m.extended) && has_reference(kind)(m)
}

/// The record that reports a mode with its own reference of `kind`.
pub open spec fn reported(kind: OutputKind) -> spec_fn(ModeView) -> MatchRecordView {
    |m: ModeView|
        MatchRecordView {
            name: m.name,
            reference: match kind {
                OutputKind::Hashcat => ReferenceView::Hashcat(m.hashcat.unwrap()),
                OutputKind::John => ReferenceView::John(m.john.unwrap()),
            },
        }
}

/// Rendering keeps, in order, exactly the modes that have a reference of the
/// chosen kind (extended ones only when asked for, whatever the kind), and
/// reports each under its own name with its own reference: a hashcat number
/// for `hc`, a John the Ripper format for `jtr`. A mode without such a
/// reference gives no record.
pub proof fn lemma_render_keeps_modes_with_a_reference(
    ms: Seq<ModeView>,
    kind: OutputKind,
    extended: bool,
)
    ensures
        rendered(ms, kind, extended) == ms.filter(kept(kind, extended)).map_values(
            reported(kind),
        ),
        rendered(ms, kind, extended).len() == ms.filter(kept(kind, extended)).len(),
    decreases ms.len(),
{
    let keep = kept(kind, extended);
    let report = reported(kind);
    if ms.len() == 0 {
        reveal(Seq::filter);
        assert(ms.filter(keep).map_values(report) =~= Seq::<MatchRecordView>::empty());
    } else {
        let rest = ms.drop_last();
        let m = ms.last();
        lemma_render_keeps_modes_with_a_reference(rest, kind, extended);
        rest.lemma_filter_push(m, keep);
        assert(rest.push(m) =~= ms);
        if keep(m) {
            assert(rest.filter(keep).push(m).map_values(report) =~= rest.filter(keep).map_values(
                report,
            ).push(report(m)));
        }
    }
}

/// Every rendered record names a mode of the input that is shown and has
/// exactly that reference of the chosen kind.
pub proof fn lemma_rendered_records_come_from_modes(
    ms: Seq<ModeView>,
    kind: OutputKind,
    extended: bool,
)
    ensures
        forall|i: int|
            #![trigger rendered(ms, kind, extended)[i]]
            0 <= i < rendered(ms, kind, extended).len() ==> exists|j: int|
                #![trigger ms[j]]
                0 <= j < ms.len() && (extended || !ms[j].extended) && ms[j].name == rendered(
                    ms,
                    kind,
                    extended,
                )[i].name && match rendered(ms, kind, extended)[i].reference {
                    ReferenceView::Hashcat(n) => kind is Hashcat && ms[j].hashcat == Some(n),
                    ReferenceView::John(f) => kind is John && ms[j].john == Some(f),
                },
{
    lemma_render_keeps_modes_with_a_reference(ms, kind, extended);
    let keep = kept(kind, extended);
    let f = ms.filter(keep);
    broadcast use vstd::seq_lib::group_filter_ensures;

    assert forall|i: int| #![trigger rendered(ms, kind, extended)[i]] 0 <= i < rendered(
        ms,
        kind,
        extended,
    ).len() implies exists|j: int|
        #![trigger ms[j]]
        0 <= j < ms.len() && (extended || !ms[j].extended) && ms[j].name == rendered(
            ms,
            kind,
            extended,
        )[i].name && match rendered(ms, kind, extended)[i].reference {
            ReferenceView::Hashcat(n) => kind is Hashcat && ms[j].hashcat == Some(n),
            ReferenceView::John(g) => kind is John && ms[j].john == Some(g),
        } by {
        let m = f[i];
        assert(keep(m));
        assert(f.contains(m));
        ms.lemma_filter_contains_rev(keep, m);
        let j = choose|j: int| 0 <= j < ms.len() && ms[j] == m;
        assert(ms[j] == m);
    }
}

/// Whether the regex of a prototype finds `hash`.
pub open spec fn finds(hash: Seq<char>) -> spec_fn(PrototypeView) -> bool {
    |p: PrototypeView| case_insensitive_search(p.regex, hash) == Some(true)
}

/// The modes of a prototype.
pub open spec fn modes_of() -> spec_fn(PrototypeView) -> Seq<ModeView> {
    |p: PrototypeView| p.modes
}

/// Whether a mode's name is (`common`) or is not (`!common`) among `commons`.
pub open spec fn named_in(commons: Seq<Seq<char>>, common: bool) -> spec_fn(ModeView) -> bool {
    |m: ModeView| commons.contains(m.name) == common
}

proof fn lemma_matched_modes_concatenate(ps: Seq<PrototypeView>, hash: Seq<char>, n: nat)
    requires
        n <= ps.len(),
    ensures
        matched_modes(ps, hash, n) == ps.take(n as int).filter(finds(hash)).map_values(
            modes_of(),
        ).flatten(),
    decreases n,
{
    broadcast use vstd::seq::Seq::lemma_flatten_push;

    let keep = finds(hash);
    if n == 0 {
        reveal(Seq::filter);
        assert(ps.take(0) =~= Seq::<PrototypeView>::empty());
        assert(ps.take(0).filter(keep).map_values(modes_of()) =~= Seq::<Seq<ModeView>>::empty());
    } else {
        let before = ps.take(n - 1);
        let p = ps[n - 1];
        lemma_matched_modes_concatenate(ps, hash, (n - 1) as nat);
        assert(before.push(p) =~= ps.take(n as int));
        before.lemma_filter_push(p, keep);
        if keep(p) {
            assert(before.filter(keep).push(p).map_values(modes_of()) =~= before.filter(
                keep,
            ).map_values(modes_of()).push(p.modes));
        }
    }
}

proof fn lemma_by_commonness_filters(ms: Seq<ModeView>, commons: Seq<Seq<char>>, common: bool)
    ensures
        by_commonness(ms, commons, common) == ms.filter(named_in(commons, common)),
    decreases ms.len(),
{
    let keep = named_in(commons, common);
    if ms.len() == 0 {
        reveal(Seq::filter);
        assert(ms =~= Seq::<ModeView>::empty());
    } else {
        lemma_by_commonness_filters(ms.drop_last(), commons, common);
        ms.drop_last().lemma_filter_push(ms.last(), keep);
        assert(ms.drop_last().push(ms.last()) =~= ms);
    }
}

/// Identifying a hash gives the modes of the prototypes whose regex finds
/// it, prototype after prototype in the order of the data and each
/// prototype's modes in their order, with the common modes taken to the
/// front and the others after them, each group keeping that order.
pub proof fn lemma_identified_follows_data_order(rules: DataSetView, hash: Seq<char>)
    ensures
        ({
            let found_modes = rules.prototypes.filter(finds(hash)).map_values(modes_of()).flatten();
            identified(rules, hash) == found_modes.filter(named_in(rules.commons, true))
                + found_modes.filter(named_in(rules.commons, false))
        }),
{
    let ps = rules.prototypes;
    lemma_matched_modes_concatenate(ps, hash, ps.len());
    assert(ps.take(ps.len() as int) =~= ps);
    let ms = matched_modes(ps, hash, ps.len());
    lemma_by_commonness_filters(ms, rules.commons, true);
    lemma_by_commonness_filters(ms, rules.commons, false);
}

} // verus!
