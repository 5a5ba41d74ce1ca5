//! The table of live objects: which ids this client has handed out, and which
//! interface each of them speaks.

use crate::wire::DISPLAY_ID;
use std::collections::HashMap;
use vstd::prelude::*;

verus! {

/// The interface that an object speaks.
#[derive(Clone, Copy, Debug, PartialEq, Eq, Structural)]
pub enum InterfaceTag {
    /// The display, which exists from the start.
    Display,
    /// The registry, which announces the globals.
    Registry,
    /// A callback, which fires once.
    Callback,
    /// An object that this client knows nothing about.
    Unknown,
}

/// An object on the other side of the wire.
#[derive(Clone, Copy, Debug, PartialEq, Eq, Structural)]
pub struct RemoteObject {
    /// The id that messages to and from the object carry.
    pub id: u32,
    /// The interface that the object speaks.
    pub interface_tag: InterfaceTag,
}

/// What an object table amounts to: the tag of every live id, and the id
/// that the next allocation hands out.
pub struct TableModel {
    pub tags: Map<u32, InterfaceTag>,
    pub next_id: int,
}

/// One step in the life of an object table.
pub enum TableOp {
    /// Hand out a fresh id.
    Allocate,
    /// Bind an id to a tag.
    Register(u32, InterfaceTag),
}

impl TableModel {
    /// The table before any traffic: the display alone, at id 1.
    pub open spec fn initial() -> TableModel {
        TableModel { tags: Map::empty().insert(DISPLAY_ID, InterfaceTag::Display), next_id: 2 }
    }

    /// Id 1 is the display; every live id except it has been handed out.
    pub open spec fn wf(self) -> bool {
        &&& self.next_id >= 2
        &&& self.tags.contains_key(DISPLAY_ID)
        &&& self.tags[DISPLAY_ID] == InterfaceTag::Display
        &&& forall|id: u32| #[trigger] self.tags.contains_key(id) ==> 1 <= id < self.next_id
    }

    /// The table after an allocation, which leaves the live objects alone.
    pub open spec fn allocate(self) -> TableModel {
        TableModel { tags: self.tags, next_id: self.next_id + 1 }
    }

    /// Whether `id` has been handed out by an allocation.
    pub open spec fn allocated(self, id: u32) -> bool {
        2 <= id < self.next_id
    }

    /// The table after `id` is bound to `tag`. Only an id that an
    /// allocation handed out can be bound; any other leaves the table as it
    /// is.
    pub open spec fn register(self, id: u32, tag: InterfaceTag) -> TableModel {
        if self.allocated(id) {
            TableModel { tags: self.tags.insert(id, tag), next_id: self.next_id }
        } else {
            self
        }
    }

    /// The tag of `id`, `Unknown` for an id that is not live.
    pub open spec fn lookup(self, id: u32) -> InterfaceTag {
        if self.tags.contains_key(id) {
            self.tags[id]
        } else {
            InterfaceTag::Unknown
        }
    }

    /// The table after one step.
    pub open spec fn apply(self, op: TableOp) -> TableModel {
        match op {
            TableOp::Allocate => self.allocate(),
            TableOp::Register(id, tag) => self.register(id, tag),
        }
    }

    /// The table after a sequence of steps.
    pub open spec fn run(self, ops: Seq<TableOp>) -> TableModel
        decreases ops.len(),
    {
        if ops.len() == 0 {
            self
        } else {
            self.run(ops.drop_last()).apply(ops.last())
        }
    }

    /// The ids that the allocations in a sequence of steps hand out, in the
    /// order of the steps.
    pub open spec fn issued(self, ops: Seq<TableOp>) -> Seq<int>
        decreases ops.len(),
    {
        if ops.len() == 0 {
            Seq::empty()
        } else {
            let before = self.issued(ops.drop_last());
            match ops.last() {
                TableOp::Allocate => before.push(self.run(ops.drop_last()).next_id),
                TableOp::Register(_, _) => before,
            }
        }
    }
}

/// Whatever the steps, the table stays well formed, every id handed out lies
/// at or above the table's first free id and below its next one, and the ids
/// come out in strictly increasing order.
pub proof fn lemma_run(start: TableModel, ops: Seq<TableOp>)
    requires
        start.wf(),
    ensures
        start.run(ops).wf(),
        start.next_id <= start.run(ops).next_id,
        forall|i: int|
            0 <= i < start.issued(ops).len() ==> {
                &&& start.next_id <= #[trigger] start.issued(ops)[i]
                &&& start.issued(ops)[i] < start.run(ops).next_id
            },
        forall|i: int, j: int|
            0 <= i < j < start.issued(ops).len() ==> #[trigger] start.issued(ops)[i]
                < #[trigger] start.issued(ops)[j],
    decreases ops.len(),
{
    if ops.len() > 0 {
        let earlier = ops.drop_last();
        lemma_run(start, earlier);
        let before = start.issued(earlier);
        let after = start.issued(ops);
        assert forall|i: int| 0 <= i < after.len() implies {
            &&& start.next_id <= #[trigger] after[i]
            &&& after[i] < start.run(ops).next_id
        } by {
            if i < before.len() {
                assert(after[i] == before[i]);
            }
        }
        assert forall|i: int, j: int| 0 <= i < j < after.len() implies #[trigger] after[i]
            < #[trigger] after[j] by {
            assert(after[i] == before[i]);
            if j < before.len() {
                assert(after[j] == before[j]);
            }
        }
    }
}

/// Over any sequence of allocations and registrations, the ids handed out
/// are strictly increasing, none of them is 1, and id 1 stays the display.
pub proof fn lemma_ids_increase_and_display_stays(start: TableModel, ops: Seq<TableOp>)
    requires
        start.wf(),
    ensures
        forall|i: int, j: int|
            0 <= i < j < start.issued(ops).len() ==> #[trigger] start.issued(ops)[i]
                < #[trigger] start.issued(ops)[j],
        forall|i: int| 0 <= i < start.issued(ops).len() ==> #[trigger] start.issued(ops)[i] >= 2,
        start.run(ops).lookup(DISPLAY_ID) == InterfaceTag::Display,
{
    lemma_run(start, ops);
}

/// The live objects of a session and the counter that hands out new ids.
pub struct ObjectTable {
    objects: HashMap<u32, RemoteObject>,
    next_id: u32,
}

impl View for ObjectTable {
    type V = TableModel;

    closed spec fn view(&self) -> TableModel {
        TableModel {
            tags: Map::new(
                |id: u32| self.objects@.contains_key(id),
                |id: u32| self.objects@[id].interface_tag,
            ),
            next_id: self.next_id as int,
        }
    }
}

impl ObjectTable {
    /// Every object is filed under its own id, and the model is well formed.
    pub closed spec fn wf(&self) -> bool {
        &&& self@.wf()
        &&& forall|id: u32| #[trigger]
            self.objects@.contains_key(id) ==> self.objects@[id].id == id
    }

    /// A well-formed table has a well-formed model, whose next id is a
    /// `u32`.
    pub proof fn lemma_wf(&self)
        requires
            self.wf(),
        ensures
            self@.wf(),
            self@.next_id <= u32::MAX,
    {
    }

    /// The table before any traffic: the display alone, at id 1.
    pub fn new() -> (table: ObjectTable)
        ensures
            table.wf(),
            table@ == TableModel::initial(),
    {
        let mut objects: HashMap<u32, RemoteObject> = HashMap::new();
        objects.insert(
            DISPLAY_ID,
            RemoteObject { id: DISPLAY_ID, interface_tag: InterfaceTag::Display },
        );
        let table = ObjectTable { objects, next_id: 2 };
        assert(table@.tags =~= TableModel::initial().tags);
        table
    }

    /// The id that the next allocation hands out.
    pub fn next_id(&self) -> (id: u32)
        ensures
            id == self@.next_id,
    {
        self.next_id
    }

    /// Whether an id is left to hand out.
    pub fn has_free_id(&self) -> (free: bool)
        ensures
            free == (self@.next_id < u32::MAX),
    {
        self.next_id < u32::MAX
    }

    /// Hands out the next unused id. Ids start at 2 and grow by one; none is
    /// handed out twice, and none is live yet when it is handed out.
    pub fn allocate(&mut self) -> (id: u32)
        requires
            old(self).wf(),
            old(self)@.next_id < u32::MAX,
        ensures
            final(self).wf(),
            final(self)@ == old(self)@.allocate(),
            id == old(self)@.next_id,
            id >= 2,
            !old(self)@.tags.contains_key(id),
            final(self)@.allocated(id),
    {
        let id: u32 = self.next_id;
        self.next_id = id + 1;
        id
    }

    /// Binds `id` to `tag`, in place of any tag it had. Only an id that
    /// `allocate` handed out can be bound: for any other, id 1 among them,
    /// the table stays as it is and the answer is `false`.
    pub fn register(&mut self, id: u32, tag: InterfaceTag) -> (bound: bool)
        requires
            old(self).wf(),
        ensures
            final(self).wf(),
            final(self)@ == old(self)@.register(id, tag),
            bound == old(self)@.allocated(id),
    {
        if id < 2 || id >= self.next_id {
            return false;
        }
        self.objects.insert(id, RemoteObject { id, interface_tag: tag });
        assert(self@.tags =~= old(self)@.tags.insert(id, tag));
        true
    }

    /// The tag of `id`; `Unknown` for an id that is not live.
    pub fn lookup(&self, id: u32) -> (tag: InterfaceTag)
        requires
            self.wf(),
        ensures
            tag == self@.lookup(id),
    {
        match self.objects.get(&id) {
            Some(object) => object.interface_tag,
            None => InterfaceTag::Unknown,
        }
    }

    /// The object filed under `id`, if it is live.
    pub fn get(&self, id: u32) -> (object: Option<RemoteObject>)
        requires
            self.wf(),
        ensures
            object == if self@.tags.contains_key(id) {
                Some(RemoteObject { id, interface_tag: self@.tags[id] })
            } else {
                None::<RemoteObject>
            },
    {
        match self.objects.get(&id) {
            Some(object) => Some(*object),
            None => None,
        }
    }
}

} // verus!
