//! Bringing an existing settings file up to the current set of settings.

use vstd::prelude::*;

verus! {

/// A value of a settings file: a leaf, kept as the text that writes it, or
/// a table of named values in the order of the file.
#[derive(Debug, PartialEq, Eq)]
pub enum Item {
    Value(String),
    Table(Vec<Entry>),
}

/// A named value of a table.
#[derive(Debug, PartialEq, Eq)]
pub struct Entry {
    pub key: String,
    pub item: Item,
}

/// Mathematical value of an [`Item`].
pub ghost enum ItemView {
    Value(Seq<char>),
    Table(Seq<(Seq<char>, ItemView)>),
}

impl Item {
    /// The mathematical value of the item.
    pub open spec fn model(&self) -> ItemView
        decreases self,
    {
        match self {
            Item::Value(text) => ItemView::Value(text@),
            Item::Table(entries) => ItemView::Table(
                Seq::new(
                    entries@.len(),
                    |i: int|
                        if 0 <= i < entries@.len() {
                            (entries@[i].key@, entries@[i].item.model())
                        } else {
                            (Seq::empty(), ItemView::Value(Seq::empty()))
                        },
                ),
            ),
        }
    }
}

/// A table: named values in the order of the file.
pub type TableView = Seq<(Seq<char>, ItemView)>;

/// Some entry of `table` has the key `key`.
pub open spec fn has_key(table: TableView, key: Seq<char>) -> bool {
    exists|i: int| 0 <= i < table.len() && (#[trigger] table[i]).0 == key
}

/// `i` is the place of the first entry of `table` with the key `key`.
pub open spec fn first_key_at(table: TableView, key: Seq<char>, i: int) -> bool {
    &&& 0 <= i < table.len()
    &&& table[i].0 == key
    &&& forall|j: int| 0 <= j < i ==> (#[trigger] table[j]).0 != key
}

/// Where the first entry with the key `key` stands in `table`, if there is
/// one.
pub open spec fn key_index(table: TableView, key: Seq<char>) -> int {
    choose|i: int| first_key_at(table, key, i)
}

/// The first place of a key is one place only.
pub proof fn lemma_key_index(table: TableView, key: Seq<char>, i: int)
    requires
        first_key_at(table, key, i),
    ensures
        has_key(table, key),
        key_index(table, key) == i,
{
    let k = key_index(table, key);
    assert(first_key_at(table, key, k));
    if k < i {
        assert(table[k].0 != key);
    }
    if i < k {
        assert(table[i].0 != key);
    }
}

/// The table that a vector of entries stands for.
pub open spec fn table_model(entries: Seq<Entry>) -> TableView {
    Seq::new(entries.len(), |i: int| (entries[i].key@, entries[i].item.model()))
}

/// The value of a table item is the table of its entries.
pub proof fn lemma_table_model(entries: Vec<Entry>)
    ensures
        Item::Table(entries).model() == ItemView::Table(table_model(entries@)),
{
    let item = Item::Table(entries);
    assert(item.model()->Table_0 =~= table_model(entries@));
}

/// No two entries of `table` share a key.
pub open spec fn distinct_keys(table: TableView) -> bool {
    forall|i: int, j: int| 0 <= i < j < table.len() ==> table[i].0 != table[j].0
}

/// Holds of an entry whose key `table` does not have.
pub open spec fn is_unknown(table: TableView) -> spec_fn((Seq<char>, ItemView)) -> bool {
    |e: (Seq<char>, ItemView)| !has_key(table, e.0)
}

/// The table that takes the place of `new` once the values of `old` are
/// brought over.
///
/// Every entry of `new` stays where it is. Where `old` has a value of the
/// same name, that value takes its place, unless both are tables, which are
/// merged in the same way. Anything else, a list among them, is a leaf and is
/// taken over whole. The entries of `old` that `new` does not know are
/// dropped where `delete_unknown` is set, and otherwise follow after the
/// entries of `new`, in their order.
pub open spec fn merged(new: TableView, old: TableView, delete_unknown: bool) -> TableView
    decreases old,
{
    let known = Seq::new(
        new.len(),
        |j: int|
            if 0 <= j < new.len() && first_key_at(old, new[j].0, key_index(old, new[j].0)) {
                let i = key_index(old, new[j].0);
                match (new[j].1, old[i].1) {
                    (ItemView::Table(inner_new), ItemView::Table(inner_old)) => (
                        new[j].0,
                        ItemView::Table(merged(inner_new, inner_old, delete_unknown)),
                    ),
                    (_, taken) => (new[j].0, taken),
                }
            } else {
                new[j]
            },
    );
    if delete_unknown {
        known
    } else {
        known + old.filter(is_unknown(new))
    }
}

/// The place of the first entry of `table` with the key `key`, if there
/// is one.
pub fn find_key(table: &Vec<Entry>, key: &String) -> (r: Option<usize>)
    ensures
        r is Some <==> has_key(table_model(table@), key@),
        r is Some ==> r->Some_0 < table.len() && first_key_at(
            table_model(table@),
            key@,
            r->Some_0 as int,
        ) && r->Some_0 == key_index(table_model(table@), key@),
        r is None ==> !first_key_at(
            table_model(table@),
            key@,
            key_index(table_model(table@), key@),
        ),
{
    let ghost model = table_model(table@);
    let mut i: usize = 0;
    while i < table.len()
        invariant
            i <= table.len(),
            model == table_model(table@),
            forall|j: int| 0 <= j < i ==> (#[trigger] model[j]).0 != key@,
        decreases table.len() - i,
    {
        assert(model[i as int].0 == table[i as int].key@);
        if table[i].key == *key {
            proof {
                lemma_key_index(model, key@, i as int);
            }
            return Some(i);
        }
        i += 1;
    }
    None
}

impl Item {
    /// A copy with the same value.
    pub fn duplicate(&self) -> (r: Item)
        ensures
            r.model() == self.model(),
        decreases self,
    {
        match self {
            Item::Value(text) => Item::Value(text.clone()),
            Item::Table(entries) => {
                let mut copy: Vec<Entry> = Vec::new();
                let mut i: usize = 0;
                while i < entries.len()
                    invariant
                        i <= entries.len(),
                        *self == Item::Table(*entries),
                        table_model(copy@) == table_model(entries@).take(i as int),
                    decreases entries.len() - i,
                {
                    let ghost before = table_model(copy@);
                    assert(decreases_to!(self => self->Table_0));
                    assert(decreases_to!(entries => entries[i as int]));
                    let entry = Entry {
                        key: entries[i].key.clone(),
                        item: entries[i].item.duplicate(),
                    };
                    copy.push(entry);
                    assert(table_model(copy@) =~= before.push(table_model(entries@)[i as int]));
                    assert(table_model(entries@).take(i + 1) =~= before.push(
                        table_model(entries@)[i as int],
                    ));
                    i += 1;
                }
                assert(table_model(entries@).take(entries@.len() as int) =~= table_model(
                    entries@,
                ));
                proof {
                    lemma_table_model(copy);
                    lemma_table_model(*entries);
                }
                Item::Table(copy)
            },
        }
    }
}

/// Brings the values of `old` over into `new`.
///
/// `new` is the table of the current settings with their values as they are
/// where nothing is set, and `existing` is the table of a file as it is.
/// Values that both have are taken from `existing`; tables are merged entry
/// by entry, and anything else is taken over whole. What only `existing` has
/// is dropped
/// where `delete_unknown` is set and kept after the entries of `new`
/// otherwise.
pub fn update_toml_table(new: &mut Vec<Entry>, existing: &Vec<Entry>, delete_unknown: bool)
    ensures
        table_model(final(new)@) == merged(
            table_model(old(new)@),
            table_model(existing@),
            delete_unknown,
        ),
    decreases existing,
{
    let ghost fresh = table_model(new@);
    let ghost stale = table_model(existing@);
    let ghost goal = merged(fresh, stale, delete_unknown);
    let ghost known = if delete_unknown {
        goal
    } else {
        goal.take(fresh.len() as int)
    };
    assert(known.len() == fresh.len());
    let mut result: Vec<Entry> = Vec::new();
    let mut j: usize = 0;
    while j < new.len()
        invariant
            j <= new.len(),
            fresh == table_model(new@),
            stale == table_model(existing@),
            goal == merged(fresh, stale, delete_unknown),
            known.len() == fresh.len(),
            known == if delete_unknown {
                goal
            } else {
                goal.take(fresh.len() as int)
            },
            table_model(result@) == known.take(j as int),
        decreases new.len() - j,
    {
        let ghost before = table_model(result@);
        let entry = &new[j];
        assert(fresh[j as int] == (entry.key@, entry.item.model()));
        let item = match find_key(existing, &entry.key) {
            Some(i) => {
                assert(stale[i as int] == (existing[i as int].key@, existing[i as int].item.model()));
                match (&entry.item, &existing[i].item) {
                    (Item::Table(inner_new), Item::Table(inner_old)) => {
                        proof {
                            lemma_table_model(*inner_new);
                            lemma_table_model(*inner_old);
                        }
                        let mut inner: Vec<Entry> = Vec::new();
                        let mut k: usize = 0;
                        while k < inner_new.len()
                            invariant
                                k <= inner_new.len(),
                                table_model(inner@) == table_model(inner_new@).take(k as int),
                            decreases inner_new.len() - k,
                        {
                            let ghost so_far = table_model(inner@);
                            inner.push(
                                Entry {
                                    key: inner_new[k].key.clone(),
                                    item: inner_new[k].item.duplicate(),
                                },
                            );
                            assert(table_model(inner@) =~= so_far.push(
                                table_model(inner_new@)[k as int],
                            ));
                            assert(table_model(inner_new@).take(k + 1) =~= so_far.push(
                                table_model(inner_new@)[k as int],
                            ));
                            k += 1;
                        }
                        assert(table_model(inner_new@).take(inner_new@.len() as int)
                            =~= table_model(inner_new@));
                        update_toml_table(&mut inner, inner_old, delete_unknown);
                        proof {
                            lemma_table_model(inner);
                        }
                        Item::Table(inner)
                    },
                    (_, taken) => taken.duplicate(),
                }
            },
            None => entry.item.duplicate(),
        };
        let merged_entry = Entry { key: entry.key.clone(), item };
        assert((merged_entry.key@, merged_entry.item.model()) == known[j as int]);
        result.push(merged_entry);
        assert(table_model(result@) =~= before.push(known[j as int]));
        assert(known.take(j + 1) =~= before.push(known[j as int]));
        j += 1;
    }
    assert(known.take(fresh.len() as int) =~= known);
    if !delete_unknown {
        let ghost keep = is_unknown(fresh);
        let mut i: usize = 0;
        assert(stale.take(0).filter(keep) =~= Seq::empty()) by {
            reveal(Seq::filter);
        }
        assert(table_model(result@) =~= known + stale.take(0).filter(keep));
        while i < existing.len()
            invariant
                i <= existing.len(),
                fresh == table_model(new@),
                stale == table_model(existing@),
                keep == is_unknown(fresh),
                table_model(result@) == known + stale.take(i as int).filter(keep),
            decreases existing.len() - i,
        {
            let ghost before = table_model(result@);
            assert(stale[i as int] == (existing[i as int].key@, existing[i as int].item.model()));
            proof {
                lemma_filter_step(stale, keep, i as int);
            }
            if find_key(new, &existing[i].key).is_none() {
                result.push(Entry { key: existing[i].key.clone(), item: existing[i].item.duplicate() });
                assert(table_model(result@) =~= before.push(stale[i as int]));
                assert(before.push(stale[i as int]) =~= known + stale.take(i as int).filter(
                    keep,
                ).push(stale[i as int]));
            }
            i += 1;
        }
        assert(stale.take(existing@.len() as int) == stale);
        assert(goal =~= known + stale.filter(keep));
    }
    *new = result;
}

/// What filtering yields once one more entry is looked at.
pub proof fn lemma_filter_step<A>(s: Seq<A>, keep: spec_fn(A) -> bool, i: int)
    requires
        0 <= i < s.len(),
    ensures
        s.take(i + 1).filter(keep) == if keep(s[i]) {
            s.take(i).filter(keep).push(s[i])
        } else {
            s.take(i).filter(keep)
        },
{
    reveal(Seq::filter);
    assert(s.take(i + 1).drop_last() =~= s.take(i));
}

/// Brings the values of the existing document `existing` over into the document
/// `new`. The root of a document is a table and is merged as one.
pub fn update_toml_keys(new: &mut Vec<Entry>, existing: Vec<Entry>, delete_unknown: bool)
    ensures
        table_model(final(new)@) == merged(
            table_model(old(new)@),
            table_model(existing@),
            delete_unknown,
        ),
{
    update_toml_table(new, &existing, delete_unknown)
}

/// Bring the settings files of the given environments up to the current
/// set of settings, keeping the values they hold.
#[derive(Debug, Clone, PartialEq, Eq)]
pub struct UpdateSettings {
    /// The environments whose settings are brought up to date.
    envs: Vec<String>,
    /// Drop what an existing file holds and the current settings do not
    /// know.
    delete_unknown: bool,
}

impl UpdateSettings {
    /// The environments as given.
    pub closed spec fn spec_envs(&self) -> Seq<String> {
        self.envs@
    }

    /// Whether unknown entries are dropped.
    pub closed spec fn spec_delete_unknown(&self) -> bool {
        self.delete_unknown
    }

    /// The command with its options.
    pub fn new(envs: Vec<String>, delete_unknown: bool) -> (command: UpdateSettings)
        ensures
            command.spec_envs() == envs@,
            command.spec_delete_unknown() == delete_unknown,
    {
        UpdateSettings { envs, delete_unknown }
    }

    /// The environments whose settings are brought up to date.
    pub fn envs(&self) -> (envs: &Vec<String>)
        ensures
            envs@ == self.spec_envs(),
    {
        &self.envs
    }

    /// Whether unknown entries are dropped.
    pub fn delete_unknown(&self) -> (delete_unknown: bool)
        ensures
            delete_unknown == self.spec_delete_unknown(),
    {
        self.delete_unknown
    }

    /// The document to write for one environment: the current settings
    /// `defaults` with the values of the file as it is brought over. An
    /// environment that has no settings file is passed over.
    pub fn run(&self, defaults: Vec<Entry>, existing: Option<Vec<Entry>>) -> (r: Option<
        Vec<Entry>,
    >)
        ensures
            match existing {
                Some(file) => r is Some && table_model(r->Some_0@) == merged(
                    table_model(defaults@),
                    table_model(file@),
                    self.spec_delete_unknown(),
                ),
                None => r is None,
            },
    {
        match existing {
            Some(file) => {
                let mut document = defaults;
                update_toml_keys(&mut document, file, self.delete_unknown);
                Some(document)
            },
            None => None,
        }
    }
}

} // verus!
