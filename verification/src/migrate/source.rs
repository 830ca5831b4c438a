//! The ordered set of migration definitions of one run.

use vstd::prelude::*;
use crate::migrate::checksum::{content_digest, digest};
use crate::migrate::definition::{
    MigrationDefinition, MigrationDefinitionView, MigrationKind, MigrationKindView, Version,
};
use crate::migrate::error::{ParseError, ParseErrorView};
use crate::migrate::text::{
    chars_of, decimal_value, ends_with, find_first, first_index, has_suffix, occurs,
    parse_decimal, replace, replaced, slice_of, text_of,
};

verus! {

/// The definitions of a vector, one view for each.
pub open spec fn definition_views(defs: Seq<MigrationDefinition>) -> Seq<MigrationDefinitionView> {
    defs.map_values(|d: MigrationDefinition| d@)
}

/// Versions grow strictly from each definition to the next.
pub open spec fn definitions_ascending(s: Seq<MigrationDefinitionView>) -> bool {
    forall|i: int, j: int| 0 <= i < j < s.len() ==> s[i].version < s[j].version
}

/// Some definition of `s` has version `v`.
pub open spec fn defines(s: Seq<MigrationDefinitionView>, v: Version) -> bool {
    exists|i: int| 0 <= i < s.len() && #[trigger] s[i].version == v
}

/// Where the definition with version `v` stands in `s`, if there is one.
pub open spec fn definition_index(s: Seq<MigrationDefinitionView>, v: Version) -> int {
    choose|i: int| 0 <= i < s.len() && #[trigger] s[i].version == v
}

/// The versions of `s`, in its order.
pub open spec fn versions_of(s: Seq<MigrationDefinitionView>) -> Seq<Version> {
    s.map_values(|d: MigrationDefinitionView| d.version)
}

/// The version at index `j` occurs at an earlier index too.
pub open spec fn repeats_earlier(versions: Seq<Version>, j: int) -> bool {
    exists|i: int| 0 <= i < j && #[trigger] versions[i] == versions[j]
}

/// `j` is the first index whose version occurred before it.
pub open spec fn first_repeat(versions: Seq<Version>, j: int) -> bool {
    &&& 0 <= j < versions.len()
    &&& repeats_earlier(versions, j)
    &&& forall|k: int| 0 <= k < j ==> !repeats_earlier(versions, k)
}

/// No index repeats an earlier version.
pub open spec fn versions_distinct(versions: Seq<Version>) -> bool {
    forall|j: int| 0 <= j < versions.len() ==> !repeats_earlier(versions, j)
}

/// In an ascending sequence a version names one index only.
pub proof fn lemma_definition_index_unique(s: Seq<MigrationDefinitionView>, i: int)
    requires
        definitions_ascending(s),
        0 <= i < s.len(),
    ensures
        defines(s, s[i].version),
        definition_index(s, s[i].version) == i,
{
    let v = s[i].version;
    let k = definition_index(s, v);
    assert(0 <= k < s.len() && s[k].version == v);
    if k < i {
        assert(s[k].version < s[i].version);
    }
    if i < k {
        assert(s[i].version < s[k].version);
    }
}

/// What a sequence holds after one more definition is put at index `p`.
pub proof fn lemma_definitions_insert(
    s: Seq<MigrationDefinitionView>,
    p: int,
    d: MigrationDefinitionView,
)
    requires
        definitions_ascending(s),
        0 <= p <= s.len(),
        forall|i: int| 0 <= i < p ==> s[i].version < d.version,
        forall|i: int| p <= i < s.len() ==> d.version < s[i].version,
    ensures
        definitions_ascending(s.insert(p, d)),
        forall|x: MigrationDefinitionView| s.insert(p, d).contains(x) <==> s.contains(x) || x == d,
        forall|v: Version| defines(s.insert(p, d), v) <==> defines(s, v) || v == d.version,
{
    let t = s.insert(p, d);
    assert forall|i: int, j: int| 0 <= i < j < t.len() implies t[i].version < t[j].version by {
        let a = if i < p { i } else { i - 1 };
        let b = if j < p { j } else { j - 1 };
        if i != p {
            assert(t[i] == s[a]);
        }
        if j != p {
            assert(t[j] == s[b]);
        }
    }
    assert forall|x: MigrationDefinitionView| t.contains(x) <==> s.contains(x) || x == d by {
        if t.contains(x) {
            let k = choose|k: int| 0 <= k < t.len() && t[k] == x;
            if k < p {
                assert(s[k] == x);
            } else if k > p {
                assert(s[k - 1] == x);
            }
        }
        if s.contains(x) {
            let k = choose|k: int| 0 <= k < s.len() && s[k] == x;
            if k < p {
                assert(t[k] == x);
            } else {
                assert(t[k + 1] == x);
            }
        }
        if x == d {
            assert(t[p] == x);
        }
    }
    assert forall|v: Version| defines(t, v) <==> defines(s, v) || v == d.version by {
        if defines(t, v) {
            let k = definition_index(t, v);
            if k < p {
                assert(s[k].version == v);
            } else if k > p {
                assert(s[k - 1].version == v);
            }
        }
        if defines(s, v) {
            let k = definition_index(s, v);
            if k < p {
                assert(t[k].version == v);
            } else {
                assert(t[k + 1].version == v);
            }
        }
        if v == d.version {
            assert(t[p].version == v);
        }
    }
}

/// The migrations that are defined, ascending by version and with no
/// version twice.
#[derive(Debug, Clone, PartialEq, Eq)]
pub struct MigrationSource {
    definitions: Vec<MigrationDefinition>,
}

impl View for MigrationSource {
    type V = Seq<MigrationDefinitionView>;

    /// The definitions in ascending order.
    closed spec fn view(&self) -> Seq<MigrationDefinitionView> {
        definition_views(self.definitions@)
    }
}

impl MigrationSource {
    /// What every source satisfies: versions ascend strictly, so each is
    /// unique.
    pub open spec fn wf(&self) -> bool {
        definitions_ascending(self@)
    }

    /// A source that defines nothing.
    pub fn new() -> (source: MigrationSource)
        ensures
            source.wf(),
            source@ == Seq::<MigrationDefinitionView>::empty(),
    {
        let source = MigrationSource { definitions: Vec::new() };
        assert(source@ =~= Seq::<MigrationDefinitionView>::empty());
        source
    }

    /// Number of definitions.
    pub fn len(&self) -> (n: usize)
        ensures
            n == self@.len(),
    {
        self.definitions.len()
    }

    /// The definition at `index`, counted from the lowest version.
    pub fn get(&self, index: usize) -> (d: &MigrationDefinition)
        requires
            index < self@.len(),
        ensures
            d@ == self@[index as int],
    {
        &self.definitions[index]
    }

    /// Where `version` stands among the definitions, or where it would be
    /// put, and whether it is there.
    fn position(&self, version: Version) -> (r: (usize, bool))
        requires
            self.wf(),
        ensures
            r.0 <= self@.len(),
            forall|i: int| 0 <= i < r.0 ==> self@[i].version < version,
            r.1 ==> r.0 < self@.len() && self@[r.0 as int].version == version,
            !r.1 ==> forall|i: int| r.0 <= i < self@.len() ==> version < self@[i].version,
            r.1 == defines(self@, version),
    {
        let mut p: usize = 0;
        while p < self.definitions.len() && self.definitions[p].version < version
            invariant
                p <= self.definitions.len(),
                self.wf(),
                forall|i: int| 0 <= i < p ==> self@[i].version < version,
            decreases self.definitions.len() - p,
        {
            p += 1;
        }
        let found = p < self.definitions.len() && self.definitions[p].version == version;
        proof {
            let s = self@;
            if p < s.len() {
                assert(s[p as int] == self.definitions[p as int]@);
            }
            assert forall|i: int| p < i < s.len() implies version < s[i].version by {
                assert(s[p as int].version < s[i].version);
            }
            if !found && defines(s, version) {
                let k = definition_index(s, version);
                assert(s[k].version == version);
            }
        }
        (p, found)
    }

    /// True when a migration with this version is defined.
    pub fn contains(&self, version: Version) -> (r: bool)
        requires
            self.wf(),
        ensures
            r == defines(self@, version),
    {
        self.position(version).1
    }

    /// The definition with this version, if there is one.
    pub fn find(&self, version: Version) -> (r: Option<&MigrationDefinition>)
        requires
            self.wf(),
        ensures
            r is Some <==> defines(self@, version),
            r is Some ==> r->Some_0@ == self@[definition_index(self@, version)],
    {
        let (p, found) = self.position(version);
        if found {
            proof {
                lemma_definition_index_unique(self@, p as int);
            }
            Some(&self.definitions[p])
        } else {
            None
        }
    }

    /// Adds a definition at the place its version gives it. A version that is
    /// defined already is refused: the source stays as it is and the result
    /// is `false`.
    pub fn insert(&mut self, definition: MigrationDefinition) -> (inserted: bool)
        requires
            old(self).wf(),
        ensures
            final(self).wf(),
            inserted == !defines(old(self)@, definition.version),
            !inserted ==> final(self)@ == old(self)@,
            inserted ==> final(self)@.len() == old(self)@.len() + 1,
            inserted ==> forall|x: MigrationDefinitionView|
                final(self)@.contains(x) <==> old(self)@.contains(x) || x == definition@,
            inserted ==> forall|v: Version|
                defines(final(self)@, v) <==> defines(old(self)@, v) || v == definition.version,
    {
        let (p, found) = self.position(definition.version);
        if found {
            return false;
        }
        proof {
            lemma_definitions_insert(self@, p as int, definition@);
        }
        let ghost before = self@;
        self.definitions.insert(p, definition);
        assert(self@ =~= before.insert(p as int, definition@));
        true
    }
}

/// Which script of a migration a file holds.
#[derive(Debug, Clone, Copy, PartialEq, Eq, Structural)]
pub enum Variant {
    /// The script that applies the migration.
    Up,
    /// The script that undoes it.
    Down,
}

/// A file of the migration directory, as it was read: its name and, where
/// it could be read, its text.
#[derive(Debug, Clone, PartialEq, Eq)]
pub struct SourceFile {
    pub name: String,
    pub content: Option<String>,
}

/// Mathematical value of a [`SourceFile`].
pub ghost struct SourceFileView {
    pub name: Seq<char>,
    pub content: Option<Seq<char>>,
}

impl View for SourceFile {
    type V = SourceFileView;

    open spec fn view(&self) -> SourceFileView {
        SourceFileView {
            name: self.name@,
            content: match self.content {
                Some(text) => Some(text@),
                None => None,
            },
        }
    }
}

/// The files of a vector, one view for each.
pub open spec fn file_views(files: Seq<SourceFile>) -> Seq<SourceFileView> {
    files.map_values(|f: SourceFile| f@)
}

/// What the name of a file says.
#[derive(Debug, Clone, PartialEq, Eq)]
pub enum FileName {
    /// The name has not the form of a migration file. Such a file is passed
    /// over.
    Ignored,
    /// The name has the form, but what stands for the version is none.
    Invalid,
    /// The file holds one script of the migration `version`.
    Entry { version: Version, description: String, variant: Variant },
}

/// Mathematical value of a [`FileName`].
pub ghost enum FileNameView {
    Ignored,
    Invalid,
    Entry { version: Version, description: Seq<char>, variant: Variant },
}

impl View for FileName {
    type V = FileNameView;

    open spec fn view(&self) -> FileNameView {
        match *self {
            FileName::Ignored => FileNameView::Ignored,
            FileName::Invalid => FileNameView::Invalid,
            FileName::Entry { version, description, variant } => FileNameView::Entry {
                version,
                description: description@,
                variant,
            },
        }
    }
}

/// The ending of every migration file.
pub open spec fn sql_suffix() -> Seq<char> {
    seq!['.', 's', 'q', 'l']
}

/// The ending of a file that holds an up script with a down script beside
/// it.
pub open spec fn up_suffix() -> Seq<char> {
    seq!['.', 'u', 'p', '.', 's', 'q', 'l']
}

/// The ending of a file that holds a down script.
pub open spec fn down_suffix() -> Seq<char> {
    seq!['.', 'd', 'o', 'w', 'n', '.', 's', 'q', 'l']
}

/// The ending that `rest` is taken to have: the longest of the three that
/// it ends with.
pub open spec fn suffix_of(rest: Seq<char>) -> Seq<char> {
    if ends_with(rest, up_suffix()) {
        up_suffix()
    } else if ends_with(rest, down_suffix()) {
        down_suffix()
    } else {
        sql_suffix()
    }
}

/// What a file name says. A migration file is named by its version, an
/// underscore, a description and one of the endings `.sql`, `.up.sql` and
/// `.down.sql`. The version is what stands before the first underscore, a
/// number in decimal. In the description underscores stand for spaces.
pub open spec fn file_name_view(name: Seq<char>) -> FileNameView {
    if !occurs(name, '_') {
        FileNameView::Ignored
    } else {
        let at = first_index(name, '_');
        let rest = name.skip(at + 1);
        if !ends_with(rest, sql_suffix()) {
            FileNameView::Ignored
        } else {
            match decimal_value(name.take(at)) {
                None => FileNameView::Invalid,
                Some(version) => FileNameView::Entry {
                    version,
                    description: replaced(
                        rest.take(rest.len() - suffix_of(rest).len()),
                        '_',
                        ' ',
                    ),
                    variant: if suffix_of(rest) == down_suffix() {
                        Variant::Down
                    } else {
                        Variant::Up
                    },
                },
            }
        }
    }
}

/// The characters of `.sql`.
fn sql_ending() -> (v: Vec<char>)
    ensures
        v@ == sql_suffix(),
{
    let v = vec!['.', 's', 'q', 'l'];
    assert(v@ =~= sql_suffix());
    v
}

/// The characters of `.up.sql`.
fn up_ending() -> (v: Vec<char>)
    ensures
        v@ == up_suffix(),
{
    let v = vec!['.', 'u', 'p', '.', 's', 'q', 'l'];
    assert(v@ =~= up_suffix());
    v
}

/// The characters of `.down.sql`.
fn down_ending() -> (v: Vec<char>)
    ensures
        v@ == down_suffix(),
{
    let v = vec!['.', 'd', 'o', 'w', 'n', '.', 's', 'q', 'l'];
    assert(v@ =~= down_suffix());
    v
}

/// Reads the name of a file.
pub fn parse_file_name(name: &str) -> (r: FileName)
    ensures
        r@ == file_name_view(name@),
{
    let chars = chars_of(name);
    let at = match find_first(&chars, '_') {
        None => { return FileName::Ignored; },
        Some(at) => at,
    };
    let rest = slice_of(&chars, at + 1, chars.len());
    assert(rest@ == name@.skip(at + 1));
    if !has_suffix(&rest, &sql_ending()) {
        return FileName::Ignored;
    }
    let prefix = slice_of(&chars, 0, at);
    assert(prefix@ == name@.take(at as int));
    let version = match parse_decimal(&prefix) {
        None => { return FileName::Invalid; },
        Some(version) => version,
    };
    let (ending, variant): (usize, Variant) = if has_suffix(&rest, &up_ending()) {
        (7, Variant::Up)
    } else if has_suffix(&rest, &down_ending()) {
        (9, Variant::Down)
    } else {
        (4, Variant::Up)
    };
    assert(ending == suffix_of(rest@).len());
    assert(up_suffix() != down_suffix()) by {
        assert(up_suffix().len() != down_suffix().len());
    }
    assert(sql_suffix() != down_suffix()) by {
        assert(sql_suffix().len() != down_suffix().len());
    }
    let label = slice_of(&rest, 0, rest.len() - ending);
    assert(label@ == rest@.take(rest@.len() - ending));
    let description = text_of(&replace(&label, '_', ' '));
    FileName::Entry { version, description, variant }
}

/// The file at place `k` holds the script `variant` of `version`.
pub open spec fn provides(
    files: Seq<SourceFileView>,
    k: int,
    version: Version,
    variant: Variant,
) -> bool {
    &&& 0 <= k < files.len()
    &&& file_name_view(files[k].name) matches FileNameView::Entry { version: v, variant: w, .. }
    &&& v == version
    &&& w == variant
}

/// A file before place `i` holds the script `variant` of `version`.
pub open spec fn provided_before(
    files: Seq<SourceFileView>,
    i: int,
    version: Version,
    variant: Variant,
) -> bool {
    exists|k: int| 0 <= k < i && #[trigger] provides(files, k, version, variant)
}

/// Why the file at place `i` cannot be taken, if it cannot: its version is
/// none, its content could not be read, or a file before it holds the same
/// script of the same version.
pub open spec fn file_failure(files: Seq<SourceFileView>, i: int) -> Option<ParseErrorView> {
    match file_name_view(files[i].name) {
        FileNameView::Ignored => None,
        FileNameView::Invalid => Some(ParseErrorView::InvalidVersion { name: files[i].name }),
        FileNameView::Entry { version, variant, .. } => if files[i].content is None {
            Some(ParseErrorView::UnreadableContent { name: files[i].name })
        } else if provided_before(files, i, version, variant) {
            Some(ParseErrorView::DuplicateVersion { version })
        } else {
            None
        },
    }
}

/// Every file before place `n` can be taken.
pub open spec fn no_failure_before(files: Seq<SourceFileView>, n: int) -> bool {
    forall|i: int| 0 <= i < n ==> (#[trigger] file_failure(files, i)) is None
}

/// Some file holds the down script of `version`.
pub open spec fn has_down(files: Seq<SourceFileView>, version: Version) -> bool {
    exists|j: int| #[trigger] provides(files, j, version, Variant::Down)
}

/// The place of the file that holds the down script of `version`.
pub open spec fn down_file(files: Seq<SourceFileView>, version: Version) -> int {
    choose|j: int| #[trigger] provides(files, j, version, Variant::Down)
}

/// The text of an optional content, which is empty where there is none.
pub open spec fn text_or_empty(content: Option<Seq<char>>) -> Seq<char> {
    match content {
        Some(text) => text,
        None => Seq::empty(),
    }
}

/// The definition that the up script at place `k` gives rise to. Its
/// checksum is that of the up script. It is reversible where some file holds
/// a down script of the same version, and simple otherwise.
pub open spec fn definition_at(files: Seq<SourceFileView>, k: int) -> MigrationDefinitionView {
    let name = file_name_view(files[k].name);
    let version = name->version;
    let up_script = text_or_empty(files[k].content);
    MigrationDefinitionView {
        version,
        description: name->description,
        content_checksum: content_digest(up_script),
        kind: if has_down(files, version) {
            MigrationKindView::Reversible {
                up_script,
                down_script: text_or_empty(files[down_file(files, version)].content),
            }
        } else {
            MigrationKindView::Simple { up_script }
        },
    }
}

/// Among files that can all be taken, one script of one version is held by
/// one file only.
pub proof fn lemma_provided_once(
    files: Seq<SourceFileView>,
    a: int,
    b: int,
    version: Version,
    variant: Variant,
)
    requires
        no_failure_before(files, files.len() as int),
        provides(files, a, version, variant),
        provides(files, b, version, variant),
    ensures
        a == b,
{
    if a < b {
        assert(file_failure(files, b) is None);
        assert(provided_before(files, b, version, variant));
    }
    if b < a {
        assert(file_failure(files, a) is None);
        assert(provided_before(files, a, version, variant));
    }
}

/// The place of the file that holds the script `variant` of `version`
/// among the names read so far, if one does.
fn find_provider(
    names: &Vec<FileName>,
    version: Version,
    variant: Variant,
    Ghost(files): Ghost<Seq<SourceFileView>>,
) -> (r: Option<usize>)
    requires
        names.len() <= files.len(),
        forall|k: int| 0 <= k < names.len() ==> (#[trigger] names[k])@ == file_name_view(
            files[k].name,
        ),
    ensures
        r is Some <==> provided_before(files, names.len() as int, version, variant),
        r is Some ==> r->Some_0 < names.len() && provides(
            files,
            r->Some_0 as int,
            version,
            variant,
        ),
{
    let mut k: usize = 0;
    while k < names.len()
        invariant
            k <= names.len(),
            names.len() <= files.len(),
            forall|j: int| 0 <= j < names.len() ==> (#[trigger] names[j])@ == file_name_view(
                files[j].name,
            ),
            forall|j: int| 0 <= j < k ==> !#[trigger] provides(files, j, version, variant),
        decreases names.len() - k,
    {
        assert(names[k as int]@ == file_name_view(files[k as int].name));
        match &names[k] {
            FileName::Entry { version: v, variant: w, .. } => {
                if *v == version && *w == variant {
                    assert(provides(files, k as int, version, variant));
                    return Some(k);
                }
            },
            _ => {},
        }
        k += 1;
    }
    None
}

impl MigrationSource {
    /// Turns the files of a migration directory into definitions.
    ///
    /// Files whose names have not the form of a migration file are passed
    /// over. Of the others the first that cannot be taken, in the order
    /// given, fails the load. Each up script then becomes one definition,
    /// and the definitions are put in ascending order of version.
    pub fn load(files: &Vec<SourceFile>) -> (r: Result<MigrationSource, ParseError>)
        ensures
            match r {
                Ok(source) => {
                    &&& no_failure_before(file_views(files@), files@.len() as int)
                    &&& source.wf()
                    &&& forall|x: MigrationDefinitionView|
                        source@.contains(x) <==> exists|k: int|
                            #[trigger] provides(file_views(files@), k, x.version, Variant::Up)
                                && x == definition_at(file_views(files@), k)
                },
                Err(e) => exists|i: int|
                    0 <= i < files@.len() && no_failure_before(file_views(files@), i)
                        && #[trigger] file_failure(file_views(files@), i) == Some(e@),
            },
    {
        let ghost views = file_views(files@);
        let mut names: Vec<FileName> = Vec::new();
        let mut i: usize = 0;
        while i < files.len()
            invariant
                i <= files.len(),
                views == file_views(files@),
                names.len() == i,
                forall|k: int| 0 <= k < i ==> (#[trigger] names[k])@ == file_name_view(
                    views[k].name,
                ),
                no_failure_before(views, i as int),
            decreases files.len() - i,
        {
            let file = &files[i];
            assert(views[i as int] == file@);
            let name = parse_file_name(file.name.as_str());
            match &name {
                FileName::Ignored => {},
                FileName::Invalid => {
                    let error = ParseError::InvalidVersion { name: file.name.clone() };
                    assert(file_failure(views, i as int) == Some(error@));
                    return Err(error);
                },
                FileName::Entry { version, variant, .. } => {
                    if file.content.is_none() {
                        let error = ParseError::UnreadableContent { name: file.name.clone() };
                        assert(file_failure(views, i as int) == Some(error@));
                        return Err(error);
                    }
                    if find_provider(&names, *version, *variant, Ghost(views)).is_some() {
                        return Err(ParseError::DuplicateVersion { version: *version });
                    }
                },
            }
            names.push(name);
            i += 1;
        }
        let mut source = MigrationSource::new();
        let mut k: usize = 0;
        while k < files.len()
            invariant
                k <= files.len(),
                views == file_views(files@),
                names.len() == files.len(),
                forall|j: int| 0 <= j < names.len() ==> (#[trigger] names[j])@ == file_name_view(
                    views[j].name,
                ),
                no_failure_before(views, files.len() as int),
                source.wf(),
                forall|v: Version|
                    defines(source@, v) <==> provided_before(views, k as int, v, Variant::Up),
                forall|x: MigrationDefinitionView|
                    source@.contains(x) <==> exists|j: int|
                        0 <= j < k && #[trigger] provides(views, j, x.version, Variant::Up) && x
                            == definition_at(views, j),
            decreases files.len() - k,
        {
            let file = &files[k];
            assert(views[k as int] == file@);
            assert(names[k as int]@ == file_name_view(views[k as int].name));
            assert(file_failure(views, k as int) is None);
            let ghost before = source@;
            match (&names[k], &file.content) {
                (
                    FileName::Entry { version, description, variant: Variant::Up },
                    Some(content),
                ) => {
                    let up_script = content.clone();
                    let content_checksum = digest(up_script.as_str());
                    let kind = match find_provider(&names, *version, Variant::Down, Ghost(views)) {
                        Some(j) => {
                            proof {
                                lemma_provided_once(
                                    views,
                                    j as int,
                                    down_file(views, *version),
                                    *version,
                                    Variant::Down,
                                );
                            }
                            assert(views[j as int] == files[j as int]@);
                            match &files[j].content {
                                Some(down) => MigrationKind::Reversible {
                                    up_script,
                                    down_script: down.clone(),
                                },
                                None => MigrationKind::Reversible {
                                    up_script,
                                    down_script: String::new(),
                                },
                            }
                        },
                        None => {
                            assert(!has_down(views, *version)) by {
                                if has_down(views, *version) {
                                    let j = down_file(views, *version);
                                    assert(provides(views, j, *version, Variant::Down));
                                }
                            }
                            MigrationKind::Simple { up_script }
                        },
                    };
                    let definition = MigrationDefinition {
                        version: *version,
                        description: description.clone(),
                        content_checksum,
                        kind,
                    };
                    assert(definition@ == definition_at(views, k as int));
                    assert(provides(views, k as int, *version, Variant::Up));
                    let inserted = source.insert(definition);
                    assert(inserted);
                    assert forall|v: Version|
                        defines(source@, v) <==> provided_before(
                            views,
                            k + 1,
                            v,
                            Variant::Up,
                        ) by {
                        if provided_before(views, k + 1, v, Variant::Up) {
                            let j = choose|j: int|
                                0 <= j < k + 1 && #[trigger] provides(views, j, v, Variant::Up);
                            if j < k {
                                assert(provided_before(views, k as int, v, Variant::Up));
                            }
                        }
                        if provided_before(views, k as int, v, Variant::Up) {
                            let j = choose|j: int|
                                0 <= j < k && #[trigger] provides(views, j, v, Variant::Up);
                            assert(provides(views, j, v, Variant::Up));
                        }
                    }
                },
                _ => {
                    assert forall|v: Version|
                        provided_before(views, k + 1, v, Variant::Up) implies provided_before(
                            views,
                            k as int,
                            v,
                            Variant::Up,
                        ) by {
                        let j = choose|j: int|
                            0 <= j < k + 1 && #[trigger] provides(views, j, v, Variant::Up);
                        assert(j != k);
                        assert(provides(views, j, v, Variant::Up));
                    }
                    assert forall|v: Version|
                        provided_before(views, k as int, v, Variant::Up) implies provided_before(
                            views,
                            k + 1,
                            v,
                            Variant::Up,
                        ) by {
                        let j = choose|j: int|
                            0 <= j < k && #[trigger] provides(views, j, v, Variant::Up);
                        assert(provides(views, j, v, Variant::Up));
                    }
                },
            }
            k += 1;
        }
        assert forall|x: MigrationDefinitionView|
            source@.contains(x) <==> exists|k: int|
                #[trigger] provides(views, k, x.version, Variant::Up) && x == definition_at(
                    views,
                    k,
                ) by {
            if exists|k: int|
                #[trigger] provides(views, k, x.version, Variant::Up) && x == definition_at(
                    views,
                    k,
                ) {
                let j = choose|k: int|
                    #[trigger] provides(views, k, x.version, Variant::Up) && x == definition_at(
                        views,
                        k,
                    );
                assert(0 <= j < files.len());
            }
        }
        Ok(source)
    }
}

} // verus!
