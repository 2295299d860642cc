//! The rule data: prototypes (a regex and the hash modes it stands for) and
//! the names of the common modes, with the checks that loaded data must pass.

use std::path::PathBuf;

use vstd::prelude::*;

use crate::outside::{json_category_of, json_error_category, json_error_text, json_message_of};
use crate::text::{blank, decimal, decimal_text, is_blank};

verus! {

/// One hash mode that a prototype stands for.
#[derive(Debug, Clone)]
pub struct Mode {
    pub john: Option<String>,
    pub hashcat: Option<i64>,
    pub extended: bool,
    pub name: String,
    pub samples: Option<Vec<String>>,
}

/// A regular expression and the modes of the hashes that it recognises.
#[derive(Debug, Clone)]
pub struct Prototype {
    pub regex: String,
    pub modes: Vec<Mode>,
}

/// The whole rule data.
#[derive(Debug, Clone)]
pub struct DataSet {
    pub prototypes: Vec<Prototype>,
    pub commons: Vec<String>,
}

/// A mode as plain values.
pub struct ModeView {
    pub john: Option<Seq<char>>,
    pub hashcat: Option<i64>,
    pub extended: bool,
    pub name: Seq<char>,
    pub samples: Option<Seq<Seq<char>>>,
}

/// A prototype as plain values.
pub struct PrototypeView {
    pub regex: Seq<char>,
    pub modes: Seq<ModeView>,
}

/// The rule data as plain values.
pub struct DataSetView {
    pub prototypes: Seq<PrototypeView>,
    pub commons: Seq<Seq<char>>,
}

pub open spec fn texts(v: Seq<String>) -> Seq<Seq<char>> {
    v.map_values(|s: String| s@)
}

pub open spec fn optional_text(o: Option<String>) -> Option<Seq<char>> {
    match o {
        Some(s) => Some(s@),
        None => None,
    }
}

pub open spec fn mode_views(v: Seq<Mode>) -> Seq<ModeView> {
    v.map_values(|m: Mode| m@)
}

pub open spec fn prototype_views(v: Seq<Prototype>) -> Seq<PrototypeView> {
    v.map_values(|p: Prototype| p@)
}

impl View for Mode {
    type V = ModeView;

    open spec fn view(&self) -> ModeView {
        ModeView {
            john: optional_text(self.john),
            hashcat: self.hashcat,
            extended: self.extended,
            name: self.name@,
            samples: match self.samples {
                Some(v) => Some(texts(v@)),
                None => None,
            },
        }
    }
}

impl View for Prototype {
    type V = PrototypeView;

    open spec fn view(&self) -> PrototypeView {
        PrototypeView { regex: self.regex@, modes: mode_views(self.modes@) }
    }
}

impl View for DataSet {
    type V = DataSetView;

    open spec fn view(&self) -> DataSetView {
        DataSetView { prototypes: prototype_views(self.prototypes@), commons: texts(self.commons@) }
    }
}

impl DataSetView {
    /// What every data set that `load` hands out satisfies.
    pub open spec fn well_formed(self) -> bool {
        &&& self.prototypes.len() > 0
        &&& forall|i: int|
            0 <= i < self.prototypes.len() ==> #[trigger] prototype_well_formed(
                self.prototypes[i],
            )
        &&& forall|i: int| 0 <= i < self.commons.len() ==> !is_blank(#[trigger] self.commons[i])
        &&& forall|i: int, j: int|
            0 <= i < j < self.commons.len() ==> #[trigger] self.commons[i]
                != #[trigger] self.commons[j]
    }
}

/// A prototype with a regex, at least one mode, and a name for each mode.
pub open spec fn prototype_well_formed(p: PrototypeView) -> bool {
    &&& p.regex.len() > 0
    &&& p.modes.len() > 0
    &&& !has_blank_name(p.modes)
}

pub open spec fn has_blank_name(modes: Seq<ModeView>) -> bool {
    exists|k: int| 0 <= k < modes.len() && #[trigger] is_blank(modes[k].name)
}

/// `prototype {i}` followed by `tail`.
pub open spec fn prototype_message(i: nat, tail: Seq<char>) -> Seq<char> {
    "prototype "@ + decimal(i) + tail
}

/// The complaint about the first prototype at `i` or after that breaks the
/// rules, if one does.
pub open spec fn prototype_problem_from(ps: Seq<PrototypeView>, i: nat) -> Option<Seq<char>>
    decreases ps.len() - i,
{
    if i >= ps.len() {
        None
    } else if ps[i as int].regex.len() == 0 {
        Some(prototype_message(i, " has an empty regex"@))
    } else if ps[i as int].modes.len() == 0 {
        Some(prototype_message(i, " has no modes"@))
    } else if has_blank_name(ps[i as int].modes) {
        Some(prototype_message(i, " contains a mode with no name"@))
    } else {
        prototype_problem_from(ps, i + 1)
    }
}

/// The complaint about a prototype list, if it has to be refused.
pub open spec fn prototype_problem(ps: Seq<PrototypeView>) -> Option<Seq<char>> {
    if ps.len() == 0 {
        Some("the prototype list must not be empty"@)
    } else {
        prototype_problem_from(ps, 0)
    }
}

/// The complaint about the first common name at `i` or after that is blank
/// or repeats an earlier one, if one does.
pub open spec fn commons_problem_from(cs: Seq<Seq<char>>, i: nat) -> Option<Seq<char>>
    decreases cs.len() - i,
{
    if i >= cs.len() {
        None
    } else if is_blank(cs[i as int]) {
        Some("commons contains an empty name"@)
    } else if cs.take(i as int).contains(cs[i as int]) {
        Some("commons contains duplicate name `"@ + cs[i as int] + "`"@)
    } else {
        commons_problem_from(cs, i + 1)
    }
}

/// The complaint about a list of common names, if it has to be refused.
pub open spec fn commons_problem(cs: Seq<Seq<char>>) -> Option<Seq<char>> {
    commons_problem_from(cs, 0)
}

/// How serde_json sorts its errors.
#[derive(Debug, Clone, Copy, PartialEq, Eq, Structural)]
pub enum JsonErrorCategory {
    Io,
    Syntax,
    Data,
    Eof,
}

/// Why the rule data could not be loaded.
#[derive(Debug)]
pub enum DataError {
    Io { path: PathBuf, source: std::io::Error },
    Json { path: PathBuf, source: serde_json::Error },
    Schema { path: PathBuf, message: String },
}

/// A data file as it was read and decoded: the read may fail, and so may
/// the decoding of what was read.
pub struct JsonFile<T> {
    pub path: PathBuf,
    pub contents: Result<Result<T, serde_json::Error>, std::io::Error>,
}

/// `e` is the error that a decoding failure `source` in the file at `path`
/// gives: a `Json` error for a syntax error or a premature end, otherwise a
/// `Schema` error with serde_json's text for the failure.
pub open spec fn is_decoding_error(e: DataError, path: PathBuf, source: serde_json::Error) -> bool {
    if json_category_of(source) == JsonErrorCategory::Syntax || json_category_of(source)
        == JsonErrorCategory::Eof {
        e == (DataError::Json { path, source })
    } else {
        e matches DataError::Schema { path: p, message } && p == path && message@
            == json_message_of(source)
    }
}

/// A decoding failure in `file`, if there is one, is not of serde_json's I/O
/// category; decoding from text in memory never gives one.
pub open spec fn decodes_without_io_error<T>(file: JsonFile<T>) -> bool {
    file.contents matches Ok(Err(e)) ==> json_category_of(e) != JsonErrorCategory::Io
}

/// Whether `file` satisfies `decodes_without_io_error`.
fn decoding_io_free<T>(file: &JsonFile<T>) -> (r: bool)
    ensures
        r == decodes_without_io_error(*file),
{
    match &file.contents {
        Ok(Err(e)) => match json_error_category(e) {
            JsonErrorCategory::Io => false,
            _ => true,
        },
        _ => true,
    }
}

/// What loading gives for the two files as they were read and decoded.
pub open spec fn load_outcome(
    p: JsonFile<Vec<Prototype>>,
    c: JsonFile<Vec<String>>,
    r: Result<DataSet, DataError>,
) -> bool {
    match p.contents {
        Err(e) => r == Err::<DataSet, DataError>(DataError::Io { path: p.path, source: e }),
        Ok(Err(e)) => r matches Err(err) && is_decoding_error(err, p.path, e),
        Ok(Ok(ps)) => match c.contents {
            Err(e) => r == Err::<DataSet, DataError>(DataError::Io { path: c.path, source: e }),
            Ok(Err(e)) => r matches Err(err) && is_decoding_error(err, c.path, e),
            Ok(Ok(cs)) => match prototype_problem(prototype_views(ps@)) {
                Some(m) => r matches Err(DataError::Schema { path, message }) && path == p.path
                    && message@ == m,
                None => match commons_problem(texts(cs@)) {
                    Some(m) => r matches Err(DataError::Schema { path, message }) && path
                        == c.path && message@ == m,
                    None => r == Ok::<DataSet, DataError>(DataSet { prototypes: ps, commons: cs }),
                },
            },
        },
    }
}

impl DataError {
    /// The error for a decoding failure `source` of the file at `path`, which
    /// serde_json put in `category` and described as `message`: syntax
    /// errors and a premature end are `Json` errors, the rest are `Schema`
    /// errors that keep the message.
    pub fn from_json_failure(
        path: PathBuf,
        source: serde_json::Error,
        category: JsonErrorCategory,
        message: String,
    ) -> (r: DataError)
        ensures
            (category == JsonErrorCategory::Syntax || category == JsonErrorCategory::Eof) ==> r
                == (DataError::Json { path, source }),
            !(category == JsonErrorCategory::Syntax || category == JsonErrorCategory::Eof) ==> r
                == (DataError::Schema { path, message }),
    {
        match category {
            JsonErrorCategory::Syntax | JsonErrorCategory::Eof => DataError::Json { path, source },
            _ => DataError::Schema { path, message },
        }
    }
}

/// Reads one data file; on success the path is handed back for the checks.
fn read_json<T>(file: JsonFile<T>) -> (r: Result<(T, PathBuf), DataError>)
    requires
        decodes_without_io_error(file),
    ensures
        match file.contents {
            Err(e) => r == Err::<(T, PathBuf), DataError>(
                DataError::Io { path: file.path, source: e },
            ),
            Ok(Err(e)) => r matches Err(err) && is_decoding_error(err, file.path, e),
            Ok(Ok(v)) => r == Ok::<(T, PathBuf), DataError>((v, file.path)),
        },
{
    match file.contents {
        Err(source) => Err(DataError::Io { path: file.path, source }),
        Ok(Err(source)) => {
            let category = json_error_category(&source);
            match category {
                JsonErrorCategory::Syntax | JsonErrorCategory::Eof => {
                    Err(DataError::from_json_failure(file.path, source, category, String::new()))
                },
                _ => {
                    let message = json_error_text(&source);
                    Err(DataError::from_json_failure(file.path, source, category, message))
                },
            }
        },
        Ok(Ok(value)) => Ok((value, file.path)),
    }
}

/// `prototype {index}` followed by `tail`.
fn prototype_message_text(index: usize, tail: &str) -> (r: String)
    ensures
        r@ == prototype_message(index as nat, tail@),
{
    let mut r = String::from_str("prototype ");
    let digits = decimal_text(index);
    r.append(digits.as_str());
    r.append(tail);
    r
}

fn validate_prototypes(prototypes: &[Prototype]) -> (r: Result<(), String>)
    ensures
        match r {
            Ok(()) => prototype_problem(prototype_views(prototypes@)) is None,
            Err(m) => prototype_problem(prototype_views(prototypes@)) == Some(m@),
        },
{
    let ghost ps = prototype_views(prototypes@);
    if prototypes.len() == 0 {
        return Err(String::from_str("the prototype list must not be empty"));
    }
    let mut i: usize = 0;
    while i < prototypes.len()
        invariant
            ps == prototype_views(prototypes@),
            0 < prototypes@.len(),
            i <= prototypes@.len(),
            prototype_problem(ps) == prototype_problem_from(ps, i as nat),
        decreases prototypes@.len() - i,
    {
        let prototype = &prototypes[i];
        assert(ps[i as int] == prototype@);
        if prototype.regex.as_str().unicode_len() == 0 {
            return Err(prototype_message_text(i, " has an empty regex"));
        }
        if prototype.modes.len() == 0 {
            return Err(prototype_message_text(i, " has no modes"));
        }
        let mut k: usize = 0;
        while k < prototype.modes.len()
            invariant
                ps == prototype_views(prototypes@),
                i < prototypes@.len(),
                *prototype == prototypes@[i as int],
                ps[i as int] == prototype@,
                prototype_problem(ps) == prototype_problem_from(ps, i as nat),
                ps[i as int].regex.len() != 0,
                ps[i as int].modes.len() != 0,
                k <= prototype.modes@.len(),
                forall|j: int|
                    0 <= j < k ==> !is_blank(#[trigger] mode_views(prototype.modes@)[j].name),
            decreases prototype.modes@.len() - k,
        {
            if blank(prototype.modes[k].name.as_str()) {
                assert(is_blank(mode_views(prototype.modes@)[k as int].name));
                return Err(prototype_message_text(i, " contains a mode with no name"));
            }
            k = k + 1;
        }
        assert(!has_blank_name(ps[i as int].modes));
        i = i + 1;
    }
    Ok(())
}

fn validate_commons(commons: &[String]) -> (r: Result<(), String>)
    ensures
        match r {
            Ok(()) => commons_problem(texts(commons@)) is None,
            Err(m) => commons_problem(texts(commons@)) == Some(m@),
        },
{
    let ghost cs = texts(commons@);
    let mut i: usize = 0;
    while i < commons.len()
        invariant
            cs == texts(commons@),
            i <= commons@.len(),
            commons_problem(cs) == commons_problem_from(cs, i as nat),
        decreases commons@.len() - i,
    {
        let name = &commons[i];
        assert(cs[i as int] == name@);
        if blank(name.as_str()) {
            return Err(String::from_str("commons contains an empty name"));
        }
        let mut j: usize = 0;
        while j < i
            invariant
                cs == texts(commons@),
                i < commons@.len(),
                *name == commons@[i as int],
                cs[i as int] == name@,
                commons_problem(cs) == commons_problem_from(cs, i as nat),
                !is_blank(cs[i as int]),
                j <= i,
                forall|k: int| 0 <= k < j ==> cs[k] != cs[i as int],
            decreases i - j,
        {
            if commons[j] == *name {
                assert(cs.take(i as int)[j as int] == cs[i as int]);
                let mut message = String::from_str("commons contains duplicate name `");
                message.append(name.as_str());
                message.append("`");
                return Err(message);
            }
            j = j + 1;
        }
        assert(!cs.take(i as int).contains(cs[i as int]));
        i = i + 1;
    }
    Ok(())
}

/// A list of prototypes without a complaint is well formed from `i` on.
proof fn lemma_prototypes_well_formed(ps: Seq<PrototypeView>, i: nat)
    requires
        prototype_problem_from(ps, i) is None,
    ensures
        forall|k: int| i <= k < ps.len() ==> #[trigger] prototype_well_formed(ps[k]),
    decreases ps.len() - i,
{
    if i < ps.len() {
        lemma_prototypes_well_formed(ps, i + 1);
    }
}

/// A list of common names without a complaint has no blank name and no
/// repeated name from `i` on.
proof fn lemma_commons_well_formed(cs: Seq<Seq<char>>, i: nat)
    requires
        commons_problem_from(cs, i) is None,
    ensures
        forall|k: int| i <= k < cs.len() ==> !is_blank(#[trigger] cs[k]),
        forall|j: int, k: int|
            0 <= j < k < cs.len() && i <= k ==> #[trigger] cs[j] != #[trigger] cs[k],
    decreases cs.len() - i,
{
    if i < cs.len() {
        lemma_commons_well_formed(cs, i + 1);
        assert forall|j: int| 0 <= j < i implies cs[j] != cs[i as int] by {
            assert(cs.take(i as int)[j] == cs[j]);
        }
    }
}

/// A copy of a list of texts.
pub(crate) fn copy_texts(v: &Vec<String>) -> (r: Vec<String>)
    ensures
        texts(r@) == texts(v@),
{
    let mut r: Vec<String> = Vec::new();
    let mut i: usize = 0;
    while i < v.len()
        invariant
            i <= v@.len(),
            r@.len() == i,
            forall|j: int| 0 <= j < i ==> #[trigger] r@[j]@ == v@[j]@,
        decreases v@.len() - i,
    {
        r.push(v[i].clone());
        i = i + 1;
    }
    assert(texts(r@) =~= texts(v@));
    r
}

/// A copy of a mode.
pub(crate) fn copy_mode(m: &Mode) -> (r: Mode)
    ensures
        r@ == m@,
{
    let john = match &m.john {
        Some(s) => Some(s.clone()),
        None => None,
    };
    let samples = match &m.samples {
        Some(v) => Some(copy_texts(v)),
        None => None,
    };
    Mode { john, hashcat: m.hashcat, extended: m.extended, name: m.name.clone(), samples }
}

/// A copy of a list of modes.
pub(crate) fn copy_modes(v: &Vec<Mode>) -> (r: Vec<Mode>)
    ensures
        mode_views(r@) == mode_views(v@),
{
    let mut r: Vec<Mode> = Vec::new();
    let mut i: usize = 0;
    while i < v.len()
        invariant
            i <= v@.len(),
            r@.len() == i,
            forall|j: int| 0 <= j < i ==> #[trigger] r@[j]@ == v@[j]@,
        decreases v@.len() - i,
    {
        r.push(copy_mode(&v[i]));
        i = i + 1;
    }
    assert(mode_views(r@) =~= mode_views(v@));
    r
}

/// Well-formed prototypes from `i` on draw no complaint.
proof fn lemma_well_formed_prototypes_pass(ps: Seq<PrototypeView>, i: nat)
    requires
        forall|k: int| i <= k < ps.len() ==> #[trigger] prototype_well_formed(ps[k]),
    ensures
        prototype_problem_from(ps, i) is None,
    decreases ps.len() - i,
{
    if i < ps.len() {
        assert(prototype_well_formed(ps[i as int]));
        lemma_well_formed_prototypes_pass(ps, i + 1);
    }
}

/// Common names that are neither blank nor repeated draw no complaint from
/// `i` on.
proof fn lemma_well_formed_commons_pass(cs: Seq<Seq<char>>, i: nat)
    requires
        forall|k: int| 0 <= k < cs.len() ==> !is_blank(#[trigger] cs[k]),
        forall|j: int, k: int| 0 <= j < k < cs.len() ==> #[trigger] cs[j] != #[trigger] cs[k],
    ensures
        commons_problem_from(cs, i) is None,
    decreases cs.len() - i,
{
    if i < cs.len() {
        assert(!is_blank(cs[i as int]));
        if cs.take(i as int).contains(cs[i as int]) {
            let j = choose|j: int| 0 <= j < i && cs.take(i as int)[j] == cs[i as int];
            assert(cs[j] == cs.take(i as int)[j]);
        }
        lemma_well_formed_commons_pass(cs, i + 1);
    }
}

/// The checks that `load` makes refuse exactly the data sets that are not
/// well formed.
pub proof fn lemma_checks_accept_exactly_well_formed(d: DataSetView)
    ensures
        (prototype_problem(d.prototypes) is None && commons_problem(d.commons) is None)
            <==> d.well_formed(),
{
    if prototype_problem(d.prototypes) is None && commons_problem(d.commons) is None {
        lemma_prototypes_well_formed(d.prototypes, 0);
        lemma_commons_well_formed(d.commons, 0);
    }
    if d.well_formed() {
        lemma_well_formed_prototypes_pass(d.prototypes, 0);
        lemma_well_formed_commons_pass(d.commons, 0);
    }
}

impl DataSet {
    /// Loads the rule data from its two files, `prototypes.json` and
    /// `commons.json`, as they were read and decoded: the first failure in
    /// the order read, decode, read, decode, check the prototypes, check the
    /// common names is the error; a data set that loads is well formed.
    pub fn load(prototypes: JsonFile<Vec<Prototype>>, commons: JsonFile<Vec<String>>) -> (r: Result<
        Self,
        DataError,
    >)
        requires
            decodes_without_io_error(prototypes),
            decodes_without_io_error(commons),
        ensures
            load_outcome(prototypes, commons, r),
            r matches Ok(d) ==> d@.well_formed(),
    {
        let (prototype_list, prototypes_path) = match read_json(prototypes) {
            Ok(read) => read,
            Err(e) => return Err(e),
        };
        let (common_names, commons_path) = match read_json(commons) {
            Ok(read) => read,
            Err(e) => return Err(e),
        };
        match validate_prototypes(prototype_list.as_slice()) {
            Ok(()) => {},
            Err(message) => return Err(DataError::Schema { path: prototypes_path, message }),
        }
        match validate_commons(common_names.as_slice()) {
            Ok(()) => {},
            Err(message) => return Err(DataError::Schema { path: commons_path, message }),
        }
        proof {
            lemma_prototypes_well_formed(prototype_views(prototype_list@), 0);
            lemma_commons_well_formed(texts(common_names@), 0);
        }
        Ok(DataSet { prototypes: prototype_list, commons: common_names })
    }

    /// `load`, where neither file holds a decoding failure of serde_json's
    /// I/O category; `None` where one does.
    pub fn try_load(prototypes: JsonFile<Vec<Prototype>>, commons: JsonFile<Vec<String>>) -> (r:
        Option<Result<Self, DataError>>)
        ensures
            r is None <==> !(decodes_without_io_error(prototypes) && decodes_without_io_error(
                commons,
            )),
            r matches Some(loaded) ==> load_outcome(prototypes, commons, loaded) && (
            loaded matches Ok(d) ==> d@.well_formed()),
    {
        if !decoding_io_free(&prototypes) || !decoding_io_free(&commons) {
            return None;
        }
        Some(DataSet::load(prototypes, commons))
    }
}

} // verus!
