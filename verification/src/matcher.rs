//! Compiled rules: each prototype's regex compiled case-insensitively, the
//! search of a hash through all of them, and the rendering of the matches.

use vstd::prelude::*;

use crate::cli::OutputKind;
use crate::data::{
    copy_modes, copy_texts, mode_views, prototype_views, texts, DataSet, DataSetView, Mode,
    ModeView, PrototypeView,
};
use crate::laws::{
    finds, kept, lemma_identified_follows_data_order, lemma_render_keeps_modes_with_a_reference,
    modes_of, named_in, reported,
};
use crate::outside::{
    build_case_insensitive, builds_case_insensitive, case_insensitive_search, search,
    CaseInsensitiveRegex,
};

verus! {

struct CompiledPrototype {
    regex: CaseInsensitiveRegex,
    modes: Vec<Mode>,
}

impl View for CompiledPrototype {
    type V = PrototypeView;

    closed spec fn view(&self) -> PrototypeView {
        PrototypeView { regex: self.regex@, modes: mode_views(self.modes@) }
    }
}

/// The rule data with every regex compiled.
pub struct CompiledRules {
    prototypes: Vec<CompiledPrototype>,
    commons: Vec<String>,
}

spec fn compiled_views(v: Seq<CompiledPrototype>) -> Seq<PrototypeView> {
    v.map_values(|p: CompiledPrototype| p@)
}

impl View for CompiledRules {
    /// The rules as the data they were compiled from.
    type V = DataSetView;

    closed spec fn view(&self) -> DataSetView {
        DataSetView { prototypes: compiled_views(self.prototypes@), commons: texts(self.commons@) }
    }
}

/// The reference that a match reports: hashcat's mode number or John the
/// Ripper's format name.
#[derive(Clone, Debug, Eq, PartialEq)]
pub enum Reference {
    Hashcat(i64),
    John(String),
}

/// One reported match.
#[derive(Clone, Debug, Eq, PartialEq)]
pub struct MatchRecord {
    pub name: String,
    pub reference: Reference,
}

pub enum ReferenceView {
    Hashcat(i64),
    John(Seq<char>),
}

pub struct MatchRecordView {
    pub name: Seq<char>,
    pub reference: ReferenceView,
}

impl View for Reference {
    type V = ReferenceView;

    open spec fn view(&self) -> ReferenceView {
        match self {
            Reference::Hashcat(n) => ReferenceView::Hashcat(*n),
            Reference::John(s) => ReferenceView::John(s@),
        }
    }
}

impl View for MatchRecord {
    type V = MatchRecordView;

    open spec fn view(&self) -> MatchRecordView {
        MatchRecordView { name: self.name@, reference: self.reference@ }
    }
}

/// Why matching failed.
#[derive(Debug)]
pub enum MatchError {
    Compile { prototype_index: usize, regex: String, source: Box<fancy_regex::Error> },
    Evaluate { prototype_index: usize, regex: String, source: Box<fancy_regex::Error> },
}

/// Every prototype before `n` has a regex that compiles.
pub open spec fn all_build(ps: Seq<PrototypeView>, n: int) -> bool {
    forall|i: int| 0 <= i < n ==> builds_case_insensitive(#[trigger] ps[i].regex)
}

/// The search of `hash` succeeds for every prototype before `n`.
pub open spec fn all_searched(ps: Seq<PrototypeView>, hash: Seq<char>, n: int) -> bool {
    forall|i: int| 0 <= i < n ==> (#[trigger] case_insensitive_search(ps[i].regex, hash)) is Some
}

/// Whether the regex of `p` finds `hash`.
pub open spec fn found(p: PrototypeView, hash: Seq<char>) -> bool {
    case_insensitive_search(p.regex, hash) == Some(true)
}

/// The modes of the prototypes before `n` whose regex finds `hash`, in the
/// order of the data.
pub open spec fn matched_modes(ps: Seq<PrototypeView>, hash: Seq<char>, n: nat) -> Seq<ModeView>
    decreases n,
{
    if n == 0 || n > ps.len() {
        Seq::empty()
    } else if found(ps[n - 1], hash) {
        matched_modes(ps, hash, (n - 1) as nat) + ps[n - 1].modes
    } else {
        matched_modes(ps, hash, (n - 1) as nat)
    }
}

/// The modes of `ms` whose name is (`common`) or is not (`!common`) among
/// `commons`, in their order.
pub open spec fn by_commonness(ms: Seq<ModeView>, commons: Seq<Seq<char>>, common: bool) -> Seq<
    ModeView,
>
    decreases ms.len(),
{
    if ms.len() == 0 {
        Seq::empty()
    } else if commons.contains(ms.last().name) == common {
        by_commonness(ms.drop_last(), commons, common).push(ms.last())
    } else {
        by_commonness(ms.drop_last(), commons, common)
    }
}

/// `ms` sorted stably with the common modes first.
pub open spec fn commons_first(ms: Seq<ModeView>, commons: Seq<Seq<char>>) -> Seq<ModeView> {
    by_commonness(ms, commons, true) + by_commonness(ms, commons, false)
}

/// What identifying `hash` against `rules` finds, when every search
/// succeeds.
pub open spec fn identified(rules: DataSetView, hash: Seq<char>) -> Seq<ModeView> {
    commons_first(matched_modes(rules.prototypes, hash, rules.prototypes.len()), rules.commons)
}

/// `e` reports the first prototype whose search of `hash` fails.
pub open spec fn search_failure(rules: DataSetView, hash: Seq<char>, e: MatchError) -> bool {
    match e {
        MatchError::Evaluate { prototype_index, regex, .. } => {
            &&& prototype_index < rules.prototypes.len()
            &&& all_searched(rules.prototypes, hash, prototype_index as int)
            &&& case_insensitive_search(rules.prototypes[prototype_index as int].regex, hash) is None
            &&& regex@ == rules.prototypes[prototype_index as int].regex
        },
        MatchError::Compile { .. } => false,
    }
}

/// Whether the mode is shown: extended modes only on request.
pub open spec fn shown(m: ModeView, extended: bool) -> bool {
    extended || !m.extended
}

/// The record of a mode for an output kind, if the mode has that kind of
/// reference.
pub open spec fn record_of(m: ModeView, kind: OutputKind) -> Option<MatchRecordView> {
    match kind {
        OutputKind::Hashcat => match m.hashcat {
            Some(n) => Some(MatchRecordView { name: m.name, reference: ReferenceView::Hashcat(n) }),
            None => None,
        },
        OutputKind::John => match m.john {
            Some(s) => Some(MatchRecordView { name: m.name, reference: ReferenceView::John(s) }),
            None => None,
        },
    }
}

/// The records of the shown modes of `ms` that have a reference of `kind`,
/// in order.
pub open spec fn rendered(ms: Seq<ModeView>, kind: OutputKind, extended: bool) -> Seq<
    MatchRecordView,
>
    decreases ms.len(),
{
    if ms.len() == 0 {
        Seq::empty()
    } else if shown(ms.last(), extended) && record_of(ms.last(), kind) is Some {
        rendered(ms.drop_last(), kind, extended).push(record_of(ms.last(), kind).unwrap())
    } else {
        rendered(ms.drop_last(), kind, extended)
    }
}

pub open spec fn record_views(v: Seq<MatchRecord>) -> Seq<MatchRecordView> {
    v.map_values(|r: MatchRecord| r@)
}

/// What the response to a hash reports: whether any mode was identified,
/// and the rendered records.
pub struct Report {
    pub identified: bool,
    pub matches: Vec<MatchRecord>,
}

pub open spec fn ref_views(v: Seq<&Mode>) -> Seq<ModeView> {
    v.map_values(|m: &Mode| m@)
}

impl CompiledRules {
    /// Compiles the regex of every prototype, case-insensitively, in order;
    /// the first that does not compile is the error.
    pub fn compile(data: &DataSet) -> (r: Result<Self, MatchError>)
        ensures
            r is Ok <==> all_build(data@.prototypes, data@.prototypes.len() as int),
            r matches Ok(rules) ==> rules@ == data@,
            r matches Err(e) ==> (e matches MatchError::Compile { prototype_index, regex, .. }
                && prototype_index < data@.prototypes.len() && all_build(
                data@.prototypes,
                prototype_index as int,
            ) && !builds_case_insensitive(data@.prototypes[prototype_index as int].regex)
                && regex@ == data@.prototypes[prototype_index as int].regex),
    {
        let ghost ps = data@.prototypes;
        let mut prototypes: Vec<CompiledPrototype> = Vec::new();
        let mut i: usize = 0;
        while i < data.prototypes.len()
            invariant
                ps == data@.prototypes,
                ps == prototype_views(data.prototypes@),
                i <= data.prototypes@.len(),
                prototypes@.len() == i,
                all_build(ps, i as int),
                forall|j: int| 0 <= j < i ==> #[trigger] prototypes@[j]@ == ps[j],
            decreases data.prototypes@.len() - i,
        {
            let prototype = &data.prototypes[i];
            assert(prototype@ == ps[i as int]);
            match build_case_insensitive(prototype.regex.as_str()) {
                Ok(regex) => {
                    prototypes.push(CompiledPrototype { regex, modes: copy_modes(&prototype.modes) });
                },
                Err(source) => {
                    assert(!builds_case_insensitive(ps[i as int].regex));
                    return Err(
                        MatchError::Compile {
                            prototype_index: i,
                            regex: prototype.regex.clone(),
                            source: Box::new(source),
                        },
                    );
                },
            }
            i = i + 1;
        }
        let rules = CompiledRules { prototypes, commons: copy_texts(&data.commons) };
        assert(compiled_views(rules.prototypes@) =~= ps);
        Ok(rules)
    }

    /// Whether the regex of prototype `prototype_index` finds `hash`.
    pub fn matches_prototype(&self, prototype_index: usize, hash: &str) -> (r: Result<
        bool,
        MatchError,
    >)
        requires
            prototype_index < self@.prototypes.len(),
        ensures
            match r {
                Ok(b) => case_insensitive_search(self@.prototypes[prototype_index as int].regex, hash@)
                    == Some(b),
                Err(MatchError::Evaluate { prototype_index: index, regex, .. }) => index
                    == prototype_index && regex@ == self@.prototypes[prototype_index as int].regex
                    && case_insensitive_search(
                    self@.prototypes[prototype_index as int].regex,
                    hash@,
                ) is None,
                Err(MatchError::Compile { .. }) => false,
            },
    {
        let prototype = &self.prototypes[prototype_index];
        assert(prototype@ == self@.prototypes[prototype_index as int]);
        match search(&prototype.regex, hash) {
            Ok(b) => Ok(b),
            Err(source) => Err(
                MatchError::Evaluate {
                    prototype_index,
                    regex: prototype.regex.pattern().clone(),
                    source: Box::new(source),
                },
            ),
        }
    }

    /// Whether `name` is one of the common mode names.
    fn is_common(&self, name: &String) -> (r: bool)
        ensures
            r == self@.commons.contains(name@),
    {
        let mut i: usize = 0;
        while i < self.commons.len()
            invariant
                i <= self.commons@.len(),
                forall|j: int| 0 <= j < i ==> #[trigger] self@.commons[j] != name@,
            decreases self.commons@.len() - i,
        {
            if self.commons[i] == *name {
                assert(self@.commons[i as int] == name@);
                return true;
            }
            i = i + 1;
        }
        false
    }

    /// The modes of every prototype whose regex finds `hash`, in the order of
    /// the data, the common modes moved to the front (a stable sort); the
    /// first search that fails is the error.
    pub fn identify(&self, hash: &str) -> (r: Result<Vec<&Mode>, MatchError>)
        ensures
            match r {
                Ok(v) => all_searched(self@.prototypes, hash@, self@.prototypes.len() as int)
                    && ref_views(v@) == identified(self@, hash@) && ({
                    let found_modes = self@.prototypes.filter(finds(hash@)).map_values(
                        modes_of(),
                    ).flatten();
                    ref_views(v@) == found_modes.filter(named_in(self@.commons, true))
                        + found_modes.filter(named_in(self@.commons, false))
                }),
                Err(e) => search_failure(self@, hash@, e),
            },
    {
        let ghost ps = self@.prototypes;
        let mut matched: Vec<&Mode> = Vec::new();
        let mut i: usize = 0;
        while i < self.prototypes.len()
            invariant
                ps == self@.prototypes,
                i <= self.prototypes@.len(),
                all_searched(ps, hash@, i as int),
                ref_views(matched@) == matched_modes(ps, hash@, i as nat),
            decreases self.prototypes@.len() - i,
        {
            let is_match = match self.matches_prototype(i, hash) {
                Ok(b) => b,
                Err(e) => return Err(e),
            };
            let ghost before = ref_views(matched@);
            if is_match {
                let modes = &self.prototypes[i].modes;
                assert(mode_views(modes@) == ps[i as int].modes);
                let mut k: usize = 0;
                while k < modes.len()
                    invariant
                        k <= modes@.len(),
                        ref_views(matched@) == before + mode_views(modes@).take(k as int),
                    decreases modes@.len() - k,
                {
                    let ghost prev = ref_views(matched@);
                    matched.push(&modes[k]);
                    assert(ref_views(matched@) =~= prev.push(modes@[k as int]@));
                    assert(mode_views(modes@).take(k + 1) =~= mode_views(modes@).take(
                        k as int,
                    ).push(modes@[k as int]@));
                    k = k + 1;
                }
                assert(mode_views(modes@).take(modes@.len() as int) =~= mode_views(modes@));
            }
            assert(found(ps[i as int], hash@) == is_match);
            i = i + 1;
        }
        let ghost all = ref_views(matched@);
        let ghost commons = self@.commons;
        let mut result: Vec<&Mode> = Vec::new();
        let mut k: usize = 0;
        while k < matched.len()
            invariant
                all == ref_views(matched@),
                commons == self@.commons,
                k <= matched@.len(),
                ref_views(result@) == by_commonness(all.take(k as int), commons, true),
            decreases matched@.len() - k,
        {
            let ghost prev = ref_views(result@);
            let mode = matched[k];
            assert(all.take(k + 1).drop_last() =~= all.take(k as int));
            assert(all.take(k + 1).last() == mode@);
            if self.is_common(&mode.name) {
                result.push(mode);
                assert(ref_views(result@) =~= prev.push(mode@));
            }
            k = k + 1;
        }
        assert(all.take(matched@.len() as int) =~= all);
        let ghost front = ref_views(result@);
        let mut k: usize = 0;
        while k < matched.len()
            invariant
                all == ref_views(matched@),
                commons == self@.commons,
                k <= matched@.len(),
                ref_views(result@) == front + by_commonness(all.take(k as int), commons, false),
            decreases matched@.len() - k,
        {
            let ghost prev = ref_views(result@);
            let mode = matched[k];
            assert(all.take(k + 1).drop_last() =~= all.take(k as int));
            assert(all.take(k + 1).last() == mode@);
            if !self.is_common(&mode.name) {
                result.push(mode);
                assert(ref_views(result@) =~= prev.push(mode@));
            }
            k = k + 1;
        }
        proof {
            lemma_identified_follows_data_order(self@, hash@);
        }
        Ok(result)
    }

    /// The records of the shown modes among `matches` that have a reference
    /// of `output_kind`, in order: hashcat numbers or John the Ripper names.
    pub fn render(&self, matches: &[&Mode], output_kind: OutputKind, extended: bool) -> (r: Vec<
        MatchRecord,
    >)
        ensures
            record_views(r@) == rendered(ref_views(matches@), output_kind, extended),
            record_views(r@) == ref_views(matches@).filter(kept(output_kind, extended)).map_values(
                reported(output_kind),
            ),
    {
        let ghost ms = ref_views(matches@);
        let mut records: Vec<MatchRecord> = Vec::new();
        let mut k: usize = 0;
        while k < matches.len()
            invariant
                ms == ref_views(matches@),
                k <= matches@.len(),
                record_views(records@) == rendered(ms.take(k as int), output_kind, extended),
            decreases matches@.len() - k,
        {
            let ghost prev = record_views(records@);
            let mode = matches[k];
            assert(ms.take(k + 1).drop_last() =~= ms.take(k as int));
            assert(ms.take(k + 1).last() == mode@);
            if extended || !mode.extended {
                match output_kind {
                    OutputKind::Hashcat => match mode.hashcat {
                        Some(reference) => {
                            records.push(
                                MatchRecord {
                                    name: mode.name.clone(),
                                    reference: Reference::Hashcat(reference),
                                },
                            );
                            assert(record_views(records@) =~= prev.push(
                                record_of(mode@, output_kind).unwrap(),
                            ));
                        },
                        None => {},
                    },
                    OutputKind::John => match &mode.john {
                        Some(reference) => {
                            records.push(
                                MatchRecord {
                                    name: mode.name.clone(),
                                    reference: Reference::John(reference.clone()),
                                },
                            );
                            assert(record_views(records@) =~= prev.push(
                                record_of(mode@, output_kind).unwrap(),
                            ));
                        },
                        None => {},
                    },
                }
            }
            k = k + 1;
        }
        assert(ms.take(matches@.len() as int) =~= ms);
        proof {
            lemma_render_keeps_modes_with_a_reference(ms, output_kind, extended);
        }
        records
    }

    /// Identifies `hash` and renders what was found: `identified` says
    /// whether any mode was found at all, before the rendering leaves out
    /// modes that are not shown or lack a reference of `output_kind`.
    pub fn report(&self, hash: &str, output_kind: OutputKind, extended: bool) -> (r: Result<
        Report,
        MatchError,
    >)
        ensures
            match r {
                Ok(rep) => all_searched(self@.prototypes, hash@, self@.prototypes.len() as int)
                    && rep.identified == (identified(self@, hash@).len() > 0) && record_views(
                    rep.matches@,
                ) == rendered(identified(self@, hash@), output_kind, extended) && record_views(
                    rep.matches@,
                ) == identified(self@, hash@).filter(kept(output_kind, extended)).map_values(
                    reported(output_kind),
                ),
                Err(e) => search_failure(self@, hash@, e),
            },
    {
        let matches = match self.identify(hash) {
            Ok(matches) => matches,
            Err(e) => return Err(e),
        };
        let identified = matches.len() > 0;
        let records = self.render(matches.as_slice(), output_kind, extended);
        Ok(Report { identified, matches: records })
    }
}

} // verus!
