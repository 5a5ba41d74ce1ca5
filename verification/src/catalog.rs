//! The catalog of interfaces that the registry has announced.

use std::collections::HashMap;
use vstd::prelude::*;

verus! {

/// One announced global.
#[derive(Debug)]
pub struct RegistryEntry {
    /// The number under which the registry announces the global. It is not
    /// an object id.
    pub name: u32,
    /// The interface that the global speaks.
    pub interface: String,
    /// The highest version of the interface that the peer supports.
    pub version: u32,
}

/// What a registry entry amounts to.
pub struct EntryModel {
    pub name: u32,
    pub interface: Seq<char>,
    pub version: u32,
}

impl View for RegistryEntry {
    type V = EntryModel;

    open spec fn view(&self) -> EntryModel {
        EntryModel { name: self.name, interface: self.interface@, version: self.version }
    }
}

impl RegistryEntry {
    /// A copy of the entry.
    pub fn duplicate(&self) -> (copy: RegistryEntry)
        ensures
            copy@ == self@,
    {
        RegistryEntry {
            name: self.name,
            interface: self.interface.clone(),
            version: self.version,
        }
    }
}

/// The announced globals, one entry for each name.
pub struct InterfaceCatalog {
    entries: HashMap<u32, RegistryEntry>,
}

impl View for InterfaceCatalog {
    type V = Map<u32, EntryModel>;

    closed spec fn view(&self) -> Map<u32, EntryModel> {
        Map::new(|name: u32| self.entries@.contains_key(name), |name: u32| self.entries@[name]@)
    }
}

/// Announcing a name again replaces what was announced under it before: the
/// catalog holds what the last announcement said, and does not grow.
pub proof fn lemma_last_announcement_wins(
    catalog: Map<u32, EntryModel>,
    first: EntryModel,
    second: EntryModel,
)
    requires
        catalog.dom().finite(),
        first.name == second.name,
    ensures
        catalog.insert(first.name, first).insert(second.name, second) == catalog.insert(
            second.name,
            second,
        ),
        catalog.insert(first.name, first).insert(second.name, second)[second.name] == second,
        catalog.insert(first.name, first).insert(second.name, second).len() == catalog.insert(
            first.name,
            first,
        ).len(),
{
    assert(catalog.insert(first.name, first).insert(second.name, second) =~= catalog.insert(
        second.name,
        second,
    ));
    assert(catalog.insert(first.name, first).dom() =~= catalog.insert(second.name, second).dom());
}

impl InterfaceCatalog {
    /// Every entry is filed under its own name.
    pub closed spec fn wf(&self) -> bool {
        forall|name: u32| #[trigger]
            self.entries@.contains_key(name) ==> self.entries@[name].name == name
    }

    /// In a well-formed catalog every entry stands under its own name, and
    /// the names are finitely many.
    pub proof fn lemma_wf(&self)
        requires
            self.wf(),
        ensures
            self@.dom().finite(),
            forall|name: u32| #[trigger] self@.contains_key(name) ==> self@[name].name == name,
    {
        assert(self@.dom() =~= self.entries@.dom());
    }

    /// The empty catalog.
    pub fn new() -> (catalog: InterfaceCatalog)
        ensures
            catalog.wf(),
            catalog@ == Map::<u32, EntryModel>::empty(),
    {
        let catalog = InterfaceCatalog { entries: HashMap::new() };
        assert(catalog@ =~= Map::<u32, EntryModel>::empty());
        catalog
    }

    /// Files a global under `name`, in place of whatever was filed under
    /// that name before.
    pub fn upsert(&mut self, name: u32, interface: String, version: u32)
        requires
            old(self).wf(),
        ensures
            final(self).wf(),
            final(self)@ == old(self)@.insert(
                name,
                EntryModel { name, interface: interface@, version },
            ),
    {
        let ghost entry = EntryModel { name, interface: interface@, version };
        self.entries.insert(name, RegistryEntry { name, interface, version });
        assert(self@ =~= old(self)@.insert(name, entry));
    }

    /// The entry filed under `name`, if there is one.
    pub fn get(&self, name: u32) -> (entry: Option<&RegistryEntry>)
        requires
            self.wf(),
        ensures
            match entry {
                Some(found) => self@.contains_key(name) && found@ == self@[name],
                None => !self@.contains_key(name),
            },
    {
        self.entries.get(&name)
    }

    /// Whether a global is filed under `name`.
    pub fn contains(&self, name: u32) -> (found: bool)
        ensures
            found == self@.contains_key(name),
    {
        self.entries.contains_key(&name)
    }

    /// The number of globals in the catalog.
    pub fn len(&self) -> (count: usize)
        ensures
            count == self@.len(),
    {
        assert(self@.dom() =~= self.entries@.dom());
        self.entries.len()
    }

    /// Every entry of the catalog, each once, in no particular order.
    pub fn entries(&self) -> (list: Vec<RegistryEntry>)
        requires
            self.wf(),
        ensures
            list@.len() == self@.len(),
            forall|i: int|
                0 <= i < list@.len() ==> self@.contains_key(#[trigger] list@[i].name) && list@[i]@
                    == self@[list@[i].name],
            forall|i: int, j: int|
                0 <= i < j < list@.len() ==> #[trigger] list@[i].name != #[trigger] list@[j].name,
    {
        let mut list: Vec<RegistryEntry> = Vec::new();
        assert(self@.dom() =~= self.entries@.dom());
        for pair in it: self.entries.iter()
            invariant
                self.wf(),
                list@.len() == it.index(),
                it.seq().len() == self.entries@.dom().len(),
                it.seq().no_duplicates(),
                forall|k: int|
                    0 <= k < it.seq().len() ==> {
                        let (name, entry) = #[trigger] it.seq()[k];
                        self.entries@.contains_key(*name) && self.entries@[*name] == *entry
                    },
                forall|k: int|
                    0 <= k < list@.len() ==> {
                        let (name, entry) = it.seq()[k];
                        (#[trigger] list@[k])@ == entry@ && list@[k].name == *name
                    },
        {
            let (_, entry) = pair;
            list.push(entry.duplicate());
        }
        list
    }

    /// Whether the catalog is empty.
    pub fn is_empty(&self) -> (empty: bool)
        ensures
            empty == (self@.len() == 0),
    {
        assert(self@.dom() =~= self.entries@.dom());
        self.entries.len() == 0
    }
}

} // verus!
