//! Update candidates: what a scan reports for each dependency that has a
//! newer version, and the registry's answer that it is computed from.

use crate::classify::{
    classification, classify, is_wildcard, latest_version, lemma_prefix_is_kept, minimum_version,
    prefix_of, specifier_prefix, wildcard, Severity, Verdict,
};
use crate::error::UpdateError;
use crate::json::{
    get_member, json_value, member, parse_value, pretty_text, string_content, text_of,
};
use crate::manifest::{
    apply_records, keeps_the_rest, rewrite_entries, rewrite_entry, rewrite_section,
    section_entries, selected_records, Declared, Dependency, Manifest, Section,
};
use crate::semver::exact_version;
use crate::text::{
    comes_first, lemma_precedes_antisymmetric, lemma_precedes_total, lemma_precedes_transitive,
    precedes, same_text,
};
use vstd::prelude::*;
use vstd::seq_lib::{to_multiset_build, to_multiset_insert};

verus! {

/// An update candidate, as a mathematical value.
pub ghost struct Record {
    pub name: Seq<char>,
    pub current_version: Seq<char>,
    pub latest_version: Seq<char>,
    pub formatted_latest_version: Seq<char>,
    pub specifier: Seq<char>,
    pub update_available: bool,
    pub severity: Severity,
    pub breaking: bool,
    pub section: Section,
}

/// A dependency together with the verdict on it.
#[derive(Debug)]
pub struct Package {
    pub name: String,
    /// The specifier as the manifest declares it.
    pub current_version: String,
    /// The latest version as the registry gives it.
    pub latest_version: String,
    /// The prefix followed by the latest version as `major.minor.patch`.
    pub formatted_latest_version: String,
    /// The prefix of the declared specifier: one character, or nothing.
    pub specifier: String,
    pub update_available: bool,
    pub severity: Severity,
    pub breaking: bool,
    /// The section that declares the dependency.
    pub section: Section,
}

impl View for Package {
    type V = Record;

    open spec fn view(&self) -> Record {
        Record {
            name: self.name@,
            current_version: self.current_version@,
            latest_version: self.latest_version@,
            formatted_latest_version: self.formatted_latest_version@,
            specifier: self.specifier@,
            update_available: self.update_available,
            severity: self.severity,
            breaking: self.breaking,
            section: self.section,
        }
    }
}

impl DeepView for Package {
    type V = Record;

    open spec fn deep_view(&self) -> Record {
        self@
    }
}

impl Record {
    /// The specifier that an update writes: the kept prefix, then the
    /// latest version as the registry gave it.
    pub open spec fn new_specifier(self) -> Seq<char> {
        self.specifier + self.latest_version
    }
}

impl Package {
    /// The specifier that an update writes into the manifest.
    pub fn new_specifier(&self) -> (s: String)
        ensures
            s@ == self@.new_specifier(),
    {
        self.specifier.clone().concat(self.latest_version.as_str())
    }
}

/// What the registry says of a package: its name and its latest version.
#[derive(Debug)]
pub struct Registry {
    pub name: String,
    pub version: String,
}

/// The name and the version in a registry answer: the two string members
/// `name` and `version` of a JSON object. An answer that lacks either one
/// is unusable.
pub open spec fn registry_answer(body: Seq<char>) -> Option<(Seq<char>, Seq<char>)> {
    match json_value(body) {
        None => None,
        Some(document) => match (member(document, "name"@), member(document, "version"@)) {
            (Some(name), Some(version)) => match (string_content(name), string_content(version)) {
                (Some(n), Some(v)) => Some((n, v)),
                _ => None,
            },
            _ => None,
        },
    }
}

/// Whether an HTTP status stands for success.
pub open spec fn is_success(status: u16) -> bool {
    200 <= status < 300
}

/// The latest version that a registry response gives: the `version` of a
/// usable answer with a success status, if it is an exact version.
pub open spec fn response_version(status: u16, body: Seq<char>) -> Result<Seq<char>, UpdateError> {
    if !is_success(status) {
        Err(UpdateError::RegistryError)
    } else {
        match registry_answer(body) {
            None => Err(UpdateError::RegistryError),
            Some(answer) => if exact_version(answer.1) is Some {
                Ok(answer.1)
            } else {
                Err(UpdateError::VersionParseError)
            },
        }
    }
}

/// The address that gives the latest version of a package.
pub open spec fn registry_address(name: Seq<char>) -> Seq<char> {
    "https://registry.npmjs.org/"@ + name + "/latest"@
}

/// The address that gives the latest version of a package.
pub fn registry_url(name: &str) -> (url: String)
    ensures
        url@ == registry_address(name@),
{
    let mut url = "https://registry.npmjs.org/".to_owned();
    url.append(name);
    url.append("/latest");
    url
}

impl Registry {
    /// Reads the body of a registry answer.
    pub fn from_body(body: &str) -> (r: Result<Registry, UpdateError>)
        ensures
            match registry_answer(body@) {
                Some(answer) => r matches Ok(registry) && registry.name@ == answer.0
                    && registry.version@ == answer.1,
                None => r matches Err(e) && e == UpdateError::RegistryError,
            },
    {
        let document = match parse_value(body) {
            Err(_) => { return Err(UpdateError::RegistryError); },
            Ok(document) => document,
        };
        let name = match get_member(&document, "name") {
            None => { return Err(UpdateError::RegistryError); },
            Some(value) => match text_of(value) {
                None => { return Err(UpdateError::RegistryError); },
                Some(text) => text.to_owned(),
            },
        };
        let version = match get_member(&document, "version") {
            None => { return Err(UpdateError::RegistryError); },
            Some(value) => match text_of(value) {
                None => { return Err(UpdateError::RegistryError); },
                Some(text) => text.to_owned(),
            },
        };
        Ok(Registry { name, version })
    }
}

/// Reads the latest version out of a registry response.
pub fn latest_from_response(status: u16, body: &str) -> (r: Result<String, UpdateError>)
    ensures
        match response_version(status, body@) {
            Ok(version) => r matches Ok(text) && text@ == version,
            Err(e) => r matches Err(f) && f == e,
        },
{
    if status < 200 || status >= 300 {
        return Err(UpdateError::RegistryError);
    }
    let registry = match Registry::from_body(body) {
        Err(e) => { return Err(e); },
        Ok(registry) => registry,
    };
    match latest_version(registry.version.as_str()) {
        Err(e) => Err(e),
        Ok(_) => Ok(registry.version),
    }
}

/// A dependency and what came of asking the registry for it, as a
/// mathematical value.
pub ghost struct Answered {
    pub dependency: Declared,
    pub latest: Result<Seq<char>, UpdateError>,
}

/// A dependency and what came of asking the registry for it: the text of
/// the latest version, or the failure.
#[derive(Debug)]
pub struct Lookup {
    pub dependency: Dependency,
    pub latest: Result<String, UpdateError>,
}

impl View for Lookup {
    type V = Answered;

    open spec fn view(&self) -> Answered {
        Answered {
            dependency: self.dependency@,
            latest: match self.latest {
                Ok(text) => Ok(text@),
                Err(e) => Err(e),
            },
        }
    }
}

impl DeepView for Lookup {
    type V = Answered;

    open spec fn deep_view(&self) -> Answered {
        self@
    }
}

/// A dependency that was left out, as a mathematical value.
pub ghost struct Notice {
    pub name: Seq<char>,
    pub section: Section,
    pub reason: UpdateError,
}

/// A dependency that was left out of the result, and why.
#[derive(Debug)]
pub struct Warning {
    pub name: String,
    pub section: Section,
    pub reason: UpdateError,
}

impl View for Warning {
    type V = Notice;

    open spec fn view(&self) -> Notice {
        Notice { name: self.name@, section: self.section, reason: self.reason }
    }
}

impl DeepView for Warning {
    type V = Notice;

    open spec fn deep_view(&self) -> Notice {
        self@
    }
}

/// What a scan found: the update candidates in order of name, and a
/// warning for each dependency that could not be judged.
#[derive(Debug)]
pub struct ScanReport {
    pub packages: Vec<Package>,
    pub warnings: Vec<Warning>,
}

/// What follows a scan.
#[derive(Clone, Copy, Debug, PartialEq, Eq, Structural)]
pub enum Step {
    /// No dependency has an update: the run ends without asking anything.
    Finish,
    /// There are updates to choose from.
    Select,
}

impl ScanReport {
    /// What follows the scan: a choice among the updates, if there are any.
    pub fn next_step(&self) -> (step: Step)
        ensures
            step is Finish <==> self.packages@.len() == 0,
    {
        if self.packages.len() == 0 {
            Step::Finish
        } else {
            Step::Select
        }
    }
}

/// The record for a dependency, the latest version and the verdict on it.
pub open spec fn record_of(dependency: Declared, latest: Seq<char>, verdict: Verdict) -> Record {
    Record {
        name: dependency.name,
        current_version: dependency.specifier,
        latest_version: latest,
        formatted_latest_version: verdict.formatted_latest,
        specifier: prefix_of(dependency.specifier),
        update_available: verdict.update_available,
        severity: verdict.severity,
        breaking: verdict.breaking,
        section: dependency.section,
    }
}

/// The record for one dependency, or the failure that leaves it out: that
/// of the registry, else that of the classifier.
pub open spec fn judged(answered: Answered) -> Result<Record, UpdateError> {
    match answered.latest {
        Err(e) => Err(e),
        Ok(latest) => match classification(answered.dependency.specifier, latest) {
            Err(e) => Err(e),
            Ok(verdict) => Ok(record_of(answered.dependency, latest, verdict)),
        },
    }
}

/// Whether a dependency is reported: it was judged, an update is
/// available, and its specifier is not the wildcard.
pub open spec fn is_candidate(answered: Answered) -> bool {
    judged(answered) matches Ok(record) && record.update_available && !is_wildcard(
        answered.dependency.specifier,
    )
}

/// The records of the dependencies that are reported, in the order of the
/// dependencies.
pub open spec fn candidates(answers: Seq<Answered>) -> Seq<Record>
    decreases answers.len(),
{
    if answers.len() == 0 {
        Seq::empty()
    } else {
        let earlier = candidates(answers.drop_last());
        if is_candidate(answers.last()) {
            earlier.push(judged(answers.last())->Ok_0)
        } else {
            earlier
        }
    }
}

/// The warnings for the dependencies that could not be judged, in the order
/// of the dependencies.
pub open spec fn warnings(answers: Seq<Answered>) -> Seq<Notice>
    decreases answers.len(),
{
    if answers.len() == 0 {
        Seq::empty()
    } else {
        let earlier = warnings(answers.drop_last());
        match judged(answers.last()) {
            Err(reason) => earlier.push(
                Notice {
                    name: answers.last().dependency.name,
                    section: answers.last().dependency.section,
                    reason,
                },
            ),
            Ok(_) => earlier,
        }
    }
}

/// The order of a report: by name in dictionary order, and for one name
/// `dependencies` before `devDependencies`.
pub open spec fn in_order(a: Record, b: Record) -> bool {
    if a.name == b.name {
        a.section is Dependencies || b.section is DevDependencies
    } else {
        precedes(a.name, b.name)
    }
}

/// Whether records stand in the order of a report.
pub open spec fn is_sorted(records: Seq<Record>) -> bool {
    forall|i: int, j: int| 0 <= i < j < records.len() ==> in_order(records[i], records[j])
}

/// Of two records, one may stand before the other.
pub proof fn lemma_in_order_total(a: Record, b: Record)
    ensures
        in_order(a, b) || in_order(b, a),
{
    lemma_precedes_total(a.name, b.name);
}

/// The order of a report carries over a record in the middle.
pub proof fn lemma_in_order_transitive(a: Record, b: Record, c: Record)
    requires
        in_order(a, b),
        in_order(b, c),
    ensures
        in_order(a, c),
{
    if a.name != b.name && b.name != c.name {
        lemma_precedes_transitive(a.name, b.name, c.name);
        if a.name == c.name {
            lemma_precedes_antisymmetric(a.name, b.name);
        }
    }
}

impl Package {
    /// Whether `self` may stand before `other` in a report.
    pub fn goes_before(&self, other: &Package) -> (r: bool)
        ensures
            r == in_order(self@, other@),
    {
        if same_text(self.name.as_str(), other.name.as_str()) {
            match (self.section, other.section) {
                (Section::Dependencies, _) => true,
                (_, Section::DevDependencies) => true,
                _ => false,
            }
        } else {
            comes_first(self.name.as_str(), other.name.as_str())
        }
    }
}

/// Judges one dependency from the registry's answer.
pub fn judge(lookup: &Lookup) -> (r: Result<Package, UpdateError>)
    ensures
        match judged(lookup@) {
            Ok(record) => r matches Ok(package) && package@ == record,
            Err(e) => r matches Err(f) && f == e,
        },
{
    let latest = match &lookup.latest {
        Err(e) => { return Err(*e); },
        Ok(latest) => latest,
    };
    let dependency = &lookup.dependency;
    let verdict = match classify(dependency.specifier.as_str(), latest.as_str()) {
        Err(e) => { return Err(e); },
        Ok(verdict) => verdict,
    };
    let specifier = specifier_prefix(dependency.specifier.as_str());
    Ok(
        Package {
            name: dependency.name.clone(),
            current_version: dependency.specifier.clone(),
            latest_version: latest.clone(),
            formatted_latest_version: verdict.formatted_latest,
            specifier,
            update_available: verdict.update_available,
            severity: verdict.severity,
            breaking: verdict.breaking,
            section: dependency.section,
        },
    )
}

/// Puts a record into a sorted list, behind the records that may stand
/// before it.
fn insert_sorted(list: &mut Vec<Package>, package: Package)
    requires
        is_sorted(old(list).deep_view()),
    ensures
        is_sorted(final(list).deep_view()),
        final(list).deep_view().to_multiset() == old(list).deep_view().to_multiset().insert(
            package@,
        ),
{
    let ghost before = list.deep_view();
    let mut i: usize = 0;
    while i < list.len() && list[i].goes_before(&package)
        invariant
            i <= list.len(),
            list.deep_view() == before,
            forall|j: int| 0 <= j < i ==> in_order(#[trigger] before[j], package@),
        decreases list.len() - i,
    {
        i += 1;
    }
    list.insert(i, package);
    proof {
        let after = list.deep_view();
        assert(after =~= before.insert(i as int, package@));
        to_multiset_insert(before, i as int, package@);
        assert forall|j: int, k: int| 0 <= j < k < after.len() implies in_order(
            after[j],
            after[k],
        ) by {
            if k == i {
                assert(in_order(before[j], package@));
            } else if j == i {
                lemma_in_order_total(before[i as int], package@);
                if k - 1 > i {
                    lemma_in_order_transitive(package@, before[i as int], before[k - 1]);
                }
            } else if j < i && k > i {
                assert(in_order(before[j], before[k - 1]));
            } else if j < i {
                assert(in_order(before[j], before[k]));
            } else {
                assert(in_order(before[j - 1], before[k - 1]));
            }
        }
    }
}

/// Assembles the result of a scan from the registry's answers: every
/// dependency with an update becomes a record, every dependency that could
/// not be judged becomes a warning and is left out, and the records are
/// put in order of name.
pub fn assemble(lookups: &Vec<Lookup>) -> (report: ScanReport)
    ensures
        is_sorted(report.packages.deep_view()),
        report.packages.deep_view().to_multiset() == candidates(
            lookups.deep_view(),
        ).to_multiset(),
        report.warnings.deep_view() == warnings(lookups.deep_view()),
{
    let mut packages: Vec<Package> = Vec::new();
    let mut notes: Vec<Warning> = Vec::new();
    let ghost all = lookups.deep_view();
    assert(notes.deep_view() =~= Seq::<Notice>::empty());
    assert(packages.deep_view() =~= Seq::<Record>::empty());
    let mut i: usize = 0;
    while i < lookups.len()
        invariant
            i <= lookups.len(),
            all == lookups.deep_view(),
            is_sorted(packages.deep_view()),
            packages.deep_view().to_multiset() == candidates(all.take(i as int)).to_multiset(),
            notes.deep_view() == warnings(all.take(i as int)),
        decreases lookups.len() - i,
    {
        let lookup = &lookups[i];
        proof {
            assert(all.take(i + 1).drop_last() =~= all.take(i as int));
            assert(all.take(i + 1).last() == lookup@);
        }
        match judge(lookup) {
            Err(reason) => {
                let ghost earlier = notes.deep_view();
                let warning = Warning {
                    name: lookup.dependency.name.clone(),
                    section: lookup.dependency.section,
                    reason,
                };
                notes.push(warning);
                assert(notes.deep_view() =~= earlier.push(warning@));
            },
            Ok(package) => {
                if package.update_available && !wildcard(lookup.dependency.specifier.as_str()) {
                    proof {
                        to_multiset_build(candidates(all.take(i as int)), package@);
                    }
                    insert_sorted(&mut packages, package);
                }
            },
        }
        i += 1;
    }
    assert(all.take(lookups.len() as int) =~= all);
    ScanReport { packages, warnings: notes }
}


/// A record keeps the prefix of the declared specifier as its own, and the
/// specifier that an update writes is that prefix followed by the latest
/// version as the registry gave it.
pub proof fn lemma_record_keeps_prefix(answered: Answered)
    requires
        judged(answered) is Ok,
    ensures
        ({
            let record = judged(answered)->Ok_0;
            let prefix = prefix_of(answered.dependency.specifier);
            &&& record.specifier == prefix
            &&& record.new_specifier() == prefix + answered.latest->Ok_0
            &&& record.formatted_latest_version.take(prefix.len() as int) == prefix
        }),
{
    let latest = answered.latest->Ok_0;
    lemma_prefix_is_kept(answered.dependency.specifier, latest);
}

/// The text of a manifest after a list of updates: the manifest is read,
/// each update is written wherever its package is declared, and the
/// document is printed as indented JSON.
pub open spec fn updated_text(text: Seq<char>, records: Seq<Record>) -> Result<
    Seq<char>,
    UpdateError,
> {
    match json_value(text) {
        None => Err(UpdateError::ManifestParseError),
        Some(document) => match pretty_text(apply_records(document, records)) {
            Some(printed) => Ok(printed),
            None => Err(UpdateError::WriteError),
        },
    }
}

/// What the document that is printed after a list of updates holds: each
/// section is rewritten entry by entry, and nothing else differs from the
/// document that was read. A section that is missing is not made, and one
/// that is no object keeps its value.
pub open spec fn rewrites_only_specifiers(document: serde_json::Value, records: Seq<Record>) -> bool {
    &&& keeps_the_rest(document, apply_records(document, records))
    &&& forall|section: Section| #[trigger]
        section_entries(apply_records(document, records), section) == rewrite_section(
            section_entries(document, section),
            records,
        )
}

/// Rewrites the text of a manifest with the given updates. Each package
/// gets its new specifier, the kept prefix followed by the latest version,
/// in every section that declares it; the rest of the document is printed
/// as it was read.
pub fn apply_updates(text: &str, records: &Vec<Package>) -> (r: Result<String, UpdateError>)
    ensures
        match updated_text(text@, records.deep_view()) {
            Ok(printed) => r matches Ok(s) && s@ == printed,
            Err(e) => r matches Err(f) && f == e,
        },
        json_value(text@) matches Some(document) ==> rewrites_only_specifiers(
            document,
            records.deep_view(),
        ),
{
    let mut manifest = match Manifest::parse(text) {
        Err(e) => { return Err(e); },
        Ok(manifest) => manifest,
    };
    let ghost read = manifest;
    manifest.apply(records);
    proof {
        assert forall|section: Section| #[trigger]
            section_entries(manifest.document(), section) == rewrite_section(
                section_entries(read.document(), section),
                records.deep_view(),
            ) by {
            assert(manifest.entries(section) == rewrite_section(
                read.entries(section),
                records.deep_view(),
            ));
        }
    }
    manifest.render()
}

/// Rewrites the text of a manifest with the updates that `selected_indexes`
/// picks out of `packages`, in the order of the picks.
pub fn modify_package_json(
    text: &str,
    packages: &Vec<Package>,
    selected_indexes: &Vec<usize>,
) -> (r: Result<String, UpdateError>)
    ensures
        match updated_text(text@, selected_records(packages.deep_view(), selected_indexes@)) {
            Ok(printed) => r matches Ok(s) && s@ == printed,
            Err(e) => r matches Err(f) && f == e,
        },
        json_value(text@) matches Some(document) ==> rewrites_only_specifiers(
            document,
            selected_records(packages.deep_view(), selected_indexes@),
        ),
{
    let mut manifest = match Manifest::parse(text) {
        Err(e) => { return Err(e); },
        Ok(manifest) => manifest,
    };
    let ghost read = manifest;
    manifest.apply_selected(packages, selected_indexes);
    proof {
        let chosen = selected_records(packages.deep_view(), selected_indexes@);
        assert forall|section: Section| #[trigger]
            section_entries(manifest.document(), section) == rewrite_section(
                section_entries(read.document(), section),
                chosen,
            ) by {
            assert(manifest.entries(section) == rewrite_section(read.entries(section), chosen));
        }
    }
    manifest.render()
}

/// Applying no update changes nothing: the document stays the same value,
/// so do the dependencies of each section, and the rewritten text is the
/// document that was read, printed.
pub proof fn lemma_no_updates_no_change(
    document: serde_json::Value,
    entries: Seq<Declared>,
    text: Seq<char>,
    records: Seq<Record>,
)
    ensures
        apply_records(document, Seq::empty()) == document,
        rewrite_entries(entries, Seq::empty()) == entries,
        selected_records(records, Seq::empty()) == Seq::<Record>::empty(),
        json_value(text) matches Some(read) ==> updated_text(text, Seq::empty()) == (
        match pretty_text(read) {
            Some(printed) => Ok::<Seq<char>, UpdateError>(printed),
            None => Err(UpdateError::WriteError),
        }),
{
}

/// Updates keep the entries of a section in place and under their names.
pub proof fn lemma_rewrite_keeps_names(entries: Seq<Declared>, records: Seq<Record>)
    ensures
        rewrite_entries(entries, records).len() == entries.len(),
        forall|i: int|
            0 <= i < entries.len() ==> (#[trigger] rewrite_entries(entries, records)[i]).name
                == entries[i].name && rewrite_entries(entries, records)[i].section
                == entries[i].section,
    decreases records.len(),
{
    if records.len() > 0 {
        lemma_rewrite_keeps_names(entries, records.drop_last());
    }
}

/// After a list of updates, an entry whose package is named by one of them
/// holds the new specifier of the last update that names it; an entry that
/// none names is unchanged.
pub proof fn lemma_rewrite_last_wins(entries: Seq<Declared>, records: Seq<Record>, i: int)
    requires
        0 <= i < entries.len(),
    ensures
        rewrite_entries(entries, records).len() == entries.len(),
        (forall|k: int| 0 <= k < records.len() ==> records[k].name != entries[i].name)
            ==> rewrite_entries(entries, records)[i] == entries[i],
        (exists|k: int| 0 <= k < records.len() && records[k].name == entries[i].name) ==> (
        exists|k: int|
            0 <= k < records.len() && records[k].name == entries[i].name && rewrite_entries(
                entries,
                records,
            )[i].specifier == #[trigger] records[k].new_specifier()),
    decreases records.len(),
{
    lemma_rewrite_keeps_names(entries, records);
    if records.len() > 0 {
        let earlier = records.drop_last();
        lemma_rewrite_last_wins(entries, earlier, i);
        lemma_rewrite_keeps_names(entries, earlier);
        let last = records.last();
        let after = rewrite_entries(entries, records);
        assert(after[i] == rewrite_entry(rewrite_entries(entries, earlier)[i], last));
        if last.name == entries[i].name {
            let k = records.len() - 1;
            assert(records[k].name == entries[i].name && after[i].specifier
                == records[k].new_specifier());
        } else {
            if exists|k: int| 0 <= k < records.len() && records[k].name == entries[i].name {
                let k = choose|k: int|
                    0 <= k < records.len() && records[k].name == entries[i].name;
                assert(earlier[k] == records[k]);
                let w = choose|w: int|
                    0 <= w < earlier.len() && earlier[w].name == entries[i].name
                        && rewrite_entries(entries, earlier)[i].specifier
                        == #[trigger] earlier[w].new_specifier();
                assert(records[w] == earlier[w]);
            } else {
                assert forall|k: int| 0 <= k < earlier.len() implies earlier[k].name
                    != entries[i].name by {
                    assert(earlier[k] == records[k]);
                }
            }
        }
    }
}

/// Whether an update leaves nothing to do: the specifier that it writes is
/// no range with a lowest version that the latest version exceeds.
pub open spec fn settles(record: Record) -> bool {
    !(minimum_version(record.new_specifier()) matches Some(lowest) && exact_version(
        record.latest_version,
    ) matches Some(latest) && latest.exceeds(lowest))
}

/// Scanning again after the updates were applied reports no update for a
/// package that was updated, as long as the registry still gives the same
/// latest version for it and every update settles its package.
pub proof fn lemma_rescan_finds_no_update(
    entries: Seq<Declared>,
    records: Seq<Record>,
    i: int,
    latest: Seq<char>,
)
    requires
        0 <= i < entries.len(),
        exists|k: int| 0 <= k < records.len() && records[k].name == entries[i].name,
        forall|k: int|
            0 <= k < records.len() && records[k].name == entries[i].name ==> (
            #[trigger] records[k]).latest_version == latest && settles(records[k]),
    ensures
        !is_candidate(
            Answered { dependency: rewrite_entries(entries, records)[i], latest: Ok(latest) },
        ),
{
    lemma_rewrite_last_wins(entries, records, i);
    let k = choose|k: int|
        0 <= k < records.len() && records[k].name == entries[i].name && rewrite_entries(
            entries,
            records,
        )[i].specifier == #[trigger] records[k].new_specifier();
    assert(settles(records[k]));
}

} // verus!
