//! The project manifest: a JSON document whose `dependencies` and
//! `devDependencies` objects map package names to version specifiers.

use crate::error::UpdateError;
use crate::json::{
    compact, compact_text, get_member, has_key, json_value, member, member_names, member_replaced,
    object_keys, parse_value, pretty, pretty_text, put_text, string_content, text_of,
    with_text_member,
};
use crate::text::{strip_quotes, without_quotes};
use crate::update::{Package, Record};
use vstd::prelude::*;

verus! {

/// The two places of a manifest that declare dependencies.
#[derive(Clone, Copy, Debug, PartialEq, Eq, Structural)]
pub enum Section {
    Dependencies,
    DevDependencies,
}

impl Section {
    /// The manifest key under which the section stands.
    pub open spec fn key_text(self) -> Seq<char> {
        match self {
            Section::Dependencies => "dependencies"@,
            Section::DevDependencies => "devDependencies"@,
        }
    }

    /// The manifest key under which the section stands.
    pub fn key(&self) -> (k: &'static str)
        ensures
            k@ == self.key_text(),
    {
        match self {
            Section::Dependencies => "dependencies",
            Section::DevDependencies => "devDependencies",
        }
    }
}

/// The two sections stand under different keys.
pub proof fn lemma_keys_differ()
    ensures
        Section::Dependencies.key_text() != Section::DevDependencies.key_text(),
{
    reveal_strlit("dependencies");
    reveal_strlit("devDependencies");
    assert("dependencies"@.len() != "devDependencies"@.len());
}

/// One declared dependency, as a mathematical value.
pub ghost struct Declared {
    pub name: Seq<char>,
    pub specifier: Seq<char>,
    pub section: Section,
}

/// One declared dependency: a package name, the specifier written for it,
/// and the section that holds the two.
#[derive(Debug)]
pub struct Dependency {
    pub name: String,
    pub specifier: String,
    pub section: Section,
}

impl View for Dependency {
    type V = Declared;

    open spec fn view(&self) -> Declared {
        Declared { name: self.name@, specifier: self.specifier@, section: self.section }
    }
}

impl DeepView for Dependency {
    type V = Declared;

    open spec fn deep_view(&self) -> Declared {
        self@
    }
}

/// The specifier that a member's value stands for: the characters of a JSON
/// string, and for any other value its one-line JSON without double quotes.
pub open spec fn specifier_text(value: serde_json::Value) -> Seq<char> {
    match string_content(value) {
        Some(s) => s,
        None => without_quotes(compact_text(value)),
    }
}

/// The dependencies that an object declares, one for each of its members in
/// the object's own order.
pub open spec fn object_entries(object: serde_json::Value, section: Section) -> Option<
    Seq<Declared>,
> {
    match object_keys(object) {
        None => None,
        Some(keys) => Some(
            Seq::new(
                keys.len(),
                |i: int|
                    Declared {
                        name: keys[i],
                        specifier: specifier_text(member(object, keys[i])->0),
                        section,
                    },
            ),
        ),
    }
}

/// The dependencies that a document declares in one section; `None` where
/// the section is missing or is not an object.
pub open spec fn section_entries(document: serde_json::Value, section: Section) -> Option<
    Seq<Declared>,
> {
    match member(document, section.key_text()) {
        None => None,
        Some(object) => object_entries(object, section),
    }
}

/// Whether no two of the dependencies that stand in one section have the
/// same name.
pub open spec fn names_distinct(entries: Seq<Declared>) -> bool {
    forall|i: int, j: int|
        0 <= i < j < entries.len() && entries[i].section == entries[j].section
            ==> entries[i].name != entries[j].name
}

/// A section's dependencies, or none where the section is absent.
pub open spec fn entries_or_none(entries: Option<Seq<Declared>>) -> Seq<Declared> {
    match entries {
        Some(list) => list,
        None => Seq::empty(),
    }
}

/// Every dependency that a document declares: those of `dependencies`, then
/// those of `devDependencies`.
pub open spec fn declared_dependencies(document: serde_json::Value) -> Seq<Declared> {
    entries_or_none(section_entries(document, Section::Dependencies)) + entries_or_none(
        section_entries(document, Section::DevDependencies),
    )
}

/// Whether a document has at least one of the two sections.
pub open spec fn has_dependencies(document: serde_json::Value) -> bool {
    section_entries(document, Section::Dependencies) is Some || section_entries(
        document,
        Section::DevDependencies,
    ) is Some
}

/// A document after one attempt to rewrite a dependency: where the section
/// is an object that declares `name`, its member becomes the string `text`;
/// otherwise nothing changes.
pub open spec fn put_if_declared(
    document: serde_json::Value,
    section: Section,
    name: Seq<char>,
    text: Seq<char>,
) -> serde_json::Value {
    if member(document, section.key_text()) matches Some(object) && has_key(object, name) {
        with_text_member(document, section.key_text(), name, text)
    } else {
        document
    }
}

/// A document after one update: the new specifier is written wherever the
/// package is declared, first in `dependencies`, then in `devDependencies`.
pub open spec fn apply_record(document: serde_json::Value, record: Record) -> serde_json::Value {
    put_if_declared(
        put_if_declared(document, Section::Dependencies, record.name, record.new_specifier()),
        Section::DevDependencies,
        record.name,
        record.new_specifier(),
    )
}

/// A document after a list of updates, applied from the first to the last.
pub open spec fn apply_records(document: serde_json::Value, records: Seq<Record>) -> serde_json::Value
    decreases records.len(),
{
    if records.len() == 0 {
        document
    } else {
        apply_record(apply_records(document, records.drop_last()), records.last())
    }
}

/// What every update leaves alone: the names of the document's top-level
/// members, in their order, each member but the two sections, and a section
/// that is missing or is no object.
pub open spec fn keeps_the_rest(before: serde_json::Value, after: serde_json::Value) -> bool {
    &&& object_keys(after) == object_keys(before)
    &&& forall|key: Seq<char>|
        key != Section::Dependencies.key_text() && key != Section::DevDependencies.key_text()
            ==> #[trigger] member(after, key) == member(before, key)
    &&& forall|section: Section| #[trigger]
        section_entries(before, section) is None ==> member(after, section.key_text())
            == member(before, section.key_text())
}

/// A declared dependency after one update: a new specifier if the update is
/// for its package, and the same dependency otherwise.
pub open spec fn rewrite_entry(entry: Declared, record: Record) -> Declared {
    if entry.name == record.name {
        Declared { specifier: record.new_specifier(), ..entry }
    } else {
        entry
    }
}

/// A section's dependencies after a list of updates.
pub open spec fn rewrite_entries(entries: Seq<Declared>, records: Seq<Record>) -> Seq<Declared>
    decreases records.len(),
{
    if records.len() == 0 {
        entries
    } else {
        rewrite_entries(entries, records.drop_last()).map_values(
            |entry: Declared| rewrite_entry(entry, records.last()),
        )
    }
}

/// A section after a list of updates; a missing section stays missing.
pub open spec fn rewrite_section(entries: Option<Seq<Declared>>, records: Seq<Record>) -> Option<
    Seq<Declared>,
> {
    match entries {
        Some(list) => Some(rewrite_entries(list, records)),
        None => None,
    }
}

/// The updates picked by `selected`, in the order of the picks; a pick that
/// points past the end of `records` picks nothing.
pub open spec fn selected_records(records: Seq<Record>, selected: Seq<usize>) -> Seq<Record>
    decreases selected.len(),
{
    if selected.len() == 0 {
        Seq::empty()
    } else {
        let earlier = selected_records(records, selected.drop_last());
        if selected.last() < records.len() {
            earlier.push(records[selected.last() as int])
        } else {
            earlier
        }
    }
}

/// A parsed manifest.
pub struct Manifest {
    pub(crate) root: serde_json::Value,
}

impl Manifest {
    /// The JSON document behind the manifest.
    pub closed spec fn document(&self) -> serde_json::Value {
        self.root
    }

    /// The dependencies declared in one section.
    pub open spec fn entries(&self, section: Section) -> Option<Seq<Declared>> {
        section_entries(self.document(), section)
    }

    /// Reads a manifest from its text, which must be valid JSON.
    pub fn parse(text: &str) -> (r: Result<Manifest, UpdateError>)
        ensures
            match json_value(text@) {
                Some(document) => r matches Ok(manifest) && manifest.document() == document,
                None => r matches Err(e) && e == UpdateError::ManifestParseError,
            },
    {
        match parse_value(text) {
            Ok(root) => Ok(Manifest { root }),
            Err(_) => Err(UpdateError::ManifestParseError),
        }
    }

    /// Appends the dependencies of one section to `out` and tells whether
    /// the section is there.
    fn read_section(&self, section: Section, out: &mut Vec<Dependency>) -> (present: bool)
        ensures
            present == (self.entries(section) is Some),
            final(out).deep_view() == old(out).deep_view() + entries_or_none(
                self.entries(section),
            ),
            names_distinct(entries_or_none(self.entries(section))),
            forall|i: int|
                0 <= i < entries_or_none(self.entries(section)).len() ==> (
                #[trigger] entries_or_none(self.entries(section))[i]).section == section,
    {
        let ghost before = out.deep_view();
        let object = match get_member(&self.root, section.key()) {
            None => {
                assert(out.deep_view() =~= before + Seq::<Declared>::empty());
                return false;
            },
            Some(object) => object,
        };
        let names = match member_names(object) {
            None => {
                assert(out.deep_view() =~= before + Seq::<Declared>::empty());
                return false;
            },
            Some(names) => names,
        };
        let ghost entries = object_entries(*object, section)->0;
        assert(names_distinct(entries)) by {
            assert forall|i: int, j: int| 0 <= i < j < entries.len() implies entries[i].name
                != entries[j].name by {
                assert(names.deep_view()[i] != names.deep_view()[j]);
            }
        }
        let mut i: usize = 0;
        while i < names.len()
            invariant
                i <= names.len(),
                object_keys(*object) == Some(names.deep_view()),
                entries == object_entries(*object, section)->0,
                entries.len() == names.len(),
                out.deep_view() == before + entries.take(i as int),
            decreases names.len() - i,
        {
            let name = names[i].clone();
            assert(names.deep_view()[i as int] == names[i as int]@);
            assert(names.deep_view().contains(name@));
            let specifier = match get_member(object, name.as_str()) {
                None => {
                    assert(false);
                    String::new()
                },
                Some(value) => match text_of(value) {
                    Some(s) => s.to_owned(),
                    None => strip_quotes(compact(value).as_str()),
                },
            };
            let dependency = Dependency { name, specifier, section };
            assert(dependency@ == entries[i as int]);
            let ghost earlier = out.deep_view();
            out.push(dependency);
            assert(out.deep_view() =~= earlier.push(dependency@));
            i += 1;
            assert(entries.take(i as int) =~= entries.take(i - 1).push(entries[i - 1]));
            assert(before + entries.take(i - 1).push(entries[i - 1]) =~= (before + entries.take(
                i - 1,
            )).push(entries[i - 1]));
        }
        assert(entries.take(names.len() as int) =~= entries);
        true
    }

    /// Lists the declared dependencies, `dependencies` first, each section
    /// in the document's own order. A manifest with neither section is
    /// refused.
    pub fn dependencies(&self) -> (r: Result<Vec<Dependency>, UpdateError>)
        ensures
            if has_dependencies(self.document()) {
                r matches Ok(list) && list.deep_view() == declared_dependencies(self.document())
            } else {
                r matches Err(e) && e == UpdateError::NoDependencies
            },
            r matches Ok(list) ==> names_distinct(list.deep_view()),
    {
        let mut list: Vec<Dependency> = Vec::new();
        assert(list.deep_view() =~= Seq::<Declared>::empty());
        let regular = self.read_section(Section::Dependencies, &mut list);
        let development = self.read_section(Section::DevDependencies, &mut list);
        if regular || development {
            assert(list.deep_view() =~= declared_dependencies(self.document()));
            proof {
                let first = entries_or_none(self.entries(Section::Dependencies));
                let second = entries_or_none(self.entries(Section::DevDependencies));
                let all = list.deep_view();
                assert forall|i: int, j: int|
                    0 <= i < j < all.len() && all[i].section == all[j].section implies all[i].name
                    != all[j].name by {
                    if j < first.len() {
                        assert(all[i] == first[i] && all[j] == first[j]);
                    } else if i >= first.len() {
                        assert(all[i] == second[i - first.len()]);
                        assert(all[j] == second[j - first.len()]);
                    } else {
                        assert(all[i] == first[i]);
                        assert(all[j] == second[j - first.len()]);
                    }
                }
            }
            Ok(list)
        } else {
            Err(UpdateError::NoDependencies)
        }
    }

    /// Rewrites the dependency `name` in one section, if it is declared there.
    fn put_if_declared(&mut self, section: Section, name: &str, text: &str)
        ensures
            keeps_the_rest(old(self).document(), final(self).document()),
            final(self).document() == put_if_declared(
                old(self).document(),
                section,
                name@,
                text@,
            ),
            final(self).entries(section) == match old(self).entries(section) {
                Some(list) => Some(
                    list.map_values(
                        |entry: Declared|
                            if entry.name == name@ {
                                Declared { specifier: text@, ..entry }
                            } else {
                                entry
                            },
                    ),
                ),
                None => None,
            },
            forall|other: Section|
                other != section ==> #[trigger] final(self).entries(other) == old(self).entries(
                    other,
                ),
    {
        let declared = match get_member(&self.root, section.key()) {
            None => false,
            Some(object) => get_member(object, name).is_some(),
        };
        let ghost before = self.root;
        let ghost rewrite = |entry: Declared|
            if entry.name == name@ {
                Declared { specifier: text@, ..entry }
            } else {
                entry
            };
        proof {
            lemma_keys_differ();
        }
        if declared {
            put_text(&mut self.root, section.key(), name, text);
            proof {
                let old_object = member(before, section.key_text())->0;
                let new_object = member(self.root, section.key_text())->0;
                assert(member_replaced(old_object, new_object, name@, text@));
                let keys = object_keys(old_object)->0;
                let old_list = object_entries(old_object, section)->0;
                let new_list = object_entries(new_object, section)->0;
                assert forall|i: int| 0 <= i < keys.len() implies new_list[i] == rewrite(
                    old_list[i],
                ) by {
                    if keys[i] != name@ {
                        assert(member(new_object, keys[i]) == member(old_object, keys[i]));
                    }
                }
                assert(new_list =~= old_list.map_values(rewrite));
            }
        } else {
            proof {
                match section_entries(before, section) {
                    None => {},
                    Some(list) => {
                        let object = member(before, section.key_text())->0;
                        let keys = object_keys(object)->0;
                        assert forall|i: int| 0 <= i < list.len() implies list[i] == rewrite(
                            list[i],
                        ) by {
                            assert(keys.contains(keys[i]));
                        }
                        assert(list =~= list.map_values(rewrite));
                    },
                }
            }
        }
    }

    /// Applies one update: the package's new specifier is written in each
    /// section that declares the package.
    pub fn apply_one(&mut self, record: &Package)
        ensures
            keeps_the_rest(old(self).document(), final(self).document()),
            final(self).document() == apply_record(old(self).document(), record@),
            forall|section: Section| #[trigger]
                final(self).entries(section) == rewrite_section(
                    old(self).entries(section),
                    seq![record@],
                ),
    {
        let text = record.new_specifier();
        let ghost before = *self;
        self.put_if_declared(Section::Dependencies, record.name.as_str(), text.as_str());
        let ghost between = *self;
        self.put_if_declared(Section::DevDependencies, record.name.as_str(), text.as_str());
        proof {
            let records = seq![record@];
            assert(records.drop_last() =~= Seq::<Record>::empty());
            assert forall|section: Section| #[trigger]
                self.entries(section) == rewrite_section(
                    before.entries(section),
                    records,
                ) by {
                match before.entries(section) {
                    None => {
                        assert(between.entries(section) is None);
                    },
                    Some(list) => {
                        assert(rewrite_entries(list, records.drop_last()) == list);
                        let by_name = |entry: Declared|
                            if entry.name == record@.name {
                                Declared { specifier: text@, ..entry }
                            } else {
                                entry
                            };
                        let by_record = |entry: Declared| rewrite_entry(entry, records.last());
                        assert(list.map_values(by_name) =~= list.map_values(by_record));
                    },
                }
            }
        }
    }

    /// Applies a list of updates, from the first to the last. Nothing but
    /// the specifiers of the named packages changes.
    pub fn apply(&mut self, records: &Vec<Package>)
        ensures
            keeps_the_rest(old(self).document(), final(self).document()),
            final(self).document() == apply_records(old(self).document(), records.deep_view()),
            forall|section: Section| #[trigger]
                final(self).entries(section) == rewrite_section(
                    old(self).entries(section),
                    records.deep_view(),
                ),
    {
        let ghost before = *self;
        let ghost all = records.deep_view();
        let mut i: usize = 0;
        while i < records.len()
            invariant
                i <= records.len(),
                all == records.deep_view(),
                keeps_the_rest(before.document(), self.document()),
                self.document() == apply_records(before.document(), all.take(i as int)),
                forall|section: Section| #[trigger]
                    self.entries(section) == rewrite_section(
                        before.entries(section),
                        all.take(i as int),
                    ),
            decreases records.len() - i,
        {
            let ghost earlier = *self;
            self.apply_one(&records[i]);
            proof {
                lemma_keeps_the_rest_chains(
                    before.document(),
                    earlier.document(),
                    self.document(),
                );
                let done = all.take(i as int);
                let next = all.take(i + 1);
                assert(next.drop_last() =~= done);
                assert(next.last() == records[i as int]@);
                assert forall|section: Section| #[trigger]
                    self.entries(section) == rewrite_section(before.entries(section), next) by {
                    lemma_rewrite_one(earlier.entries(section), records[i as int]@);
                }
            }
            i += 1;
        }
        assert(all.take(records.len() as int) =~= all);
    }

    /// Applies the updates that `selected` picks out of `records`, in the
    /// order of the picks. A pick past the end of `records` is passed over.
    pub fn apply_selected(&mut self, records: &Vec<Package>, selected: &Vec<usize>)
        ensures
            keeps_the_rest(old(self).document(), final(self).document()),
            final(self).document() == apply_records(
                old(self).document(),
                selected_records(records.deep_view(), selected@),
            ),
            forall|section: Section| #[trigger]
                final(self).entries(section) == rewrite_section(
                    old(self).entries(section),
                    selected_records(records.deep_view(), selected@),
                ),
    {
        let ghost before = *self;
        let ghost all = records.deep_view();
        let mut i: usize = 0;
        while i < selected.len()
            invariant
                i <= selected.len(),
                all == records.deep_view(),
                keeps_the_rest(before.document(), self.document()),
                self.document() == apply_records(
                    before.document(),
                    selected_records(all, selected@.take(i as int)),
                ),
                forall|section: Section| #[trigger]
                    self.entries(section) == rewrite_section(
                        before.entries(section),
                        selected_records(all, selected@.take(i as int)),
                    ),
            decreases selected.len() - i,
        {
            let index = selected[i];
            let ghost earlier = *self;
            let ghost done = selected_records(all, selected@.take(i as int));
            assert(selected@.take(i + 1).drop_last() =~= selected@.take(i as int));
            if index < records.len() {
                self.apply_one(&records[index]);
                proof {
                    lemma_keeps_the_rest_chains(
                        before.document(),
                        earlier.document(),
                        self.document(),
                    );
                    let next = selected_records(all, selected@.take(i + 1));
                    assert(next == done.push(all[index as int]));
                    assert(next.drop_last() =~= done);
                    assert forall|section: Section| #[trigger]
                        self.entries(section) == rewrite_section(
                            before.entries(section),
                            next,
                        ) by {
                        lemma_rewrite_one(earlier.entries(section), records[index as int]@);
                    }
                }
            }
            i += 1;
        }
        assert(selected@.take(selected.len() as int) =~= selected@);
    }

    /// Prints the manifest as indented JSON.
    pub fn render(&self) -> (r: Result<String, UpdateError>)
        ensures
            match pretty_text(self.document()) {
                Some(text) => r matches Ok(s) && s@ == text,
                None => r matches Err(e) && e == UpdateError::WriteError,
            },
    {
        match pretty(&self.root) {
            Ok(text) => Ok(text),
            Err(_) => Err(UpdateError::WriteError),
        }
    }
}

/// What two updates in a row leave alone, each leaves alone.
proof fn lemma_keeps_the_rest_chains(
    first: serde_json::Value,
    second: serde_json::Value,
    third: serde_json::Value,
)
    requires
        keeps_the_rest(first, second),
        keeps_the_rest(second, third),
    ensures
        keeps_the_rest(first, third),
{
    assert forall|section: Section| #[trigger]
        section_entries(first, section) is None implies member(third, section.key_text())
        == member(first, section.key_text()) by {
        assert(member(second, section.key_text()) == member(first, section.key_text()));
        assert(section_entries(second, section) is None);
    }
}

/// Rewriting a section for a single update rewrites each of its entries.
proof fn lemma_rewrite_one(entries: Option<Seq<Declared>>, record: Record)
    ensures
        rewrite_section(entries, seq![record]) == match entries {
            Some(list) => Some(list.map_values(|entry: Declared| rewrite_entry(entry, record))),
            None => None,
        },
{
    let records = seq![record];
    assert(records.drop_last() =~= Seq::<Record>::empty());
    if let Some(list) = entries {
        assert(rewrite_entries(list, records.drop_last()) == list);
        assert(records.last() == record);
    }
}

/// Reads the dependencies that a manifest text declares.
pub fn scan_manifest(text: &str) -> (r: Result<Vec<Dependency>, UpdateError>)
    ensures
        match json_value(text@) {
            None => r matches Err(e) && e == UpdateError::ManifestParseError,
            Some(document) => if has_dependencies(document) {
                r matches Ok(list) && list.deep_view() == declared_dependencies(document)
            } else {
                r matches Err(e) && e == UpdateError::NoDependencies
            },
        },
        r matches Ok(list) ==> names_distinct(list.deep_view()),
{
    match Manifest::parse(text) {
        Err(e) => Err(e),
        Ok(manifest) => manifest.dependencies(),
    }
}

} // verus!
