//! The world: how many entities exist, and one column for each kind of
//! component that any of them has ever been given.

use crate::ecs::column::{empty_slots, padded, BorrowConflict, Column, ColumnState, Lease};
use vstd::prelude::*;

verus! {

/// The world as contracts see it: the number of entities, and the state of
/// the column of each kind.
pub struct WorldView<C> {
    pub entity_count: nat,
    pub columns: Map<u64, ColumnState<C>>,
}

impl<C> WorldView<C> {
    /// No entities and no columns.
    pub open spec fn empty() -> Self {
        WorldView { entity_count: 0, columns: Map::empty() }
    }

    /// Every column whose slots are at home has exactly one slot per entity.
    pub open spec fn valid(self) -> bool {
        forall|kind: u64| #[trigger]
            self.is_home(kind) ==> self.cells(kind).len() == self.entity_count
    }

    pub open spec fn has_column(self, kind: u64) -> bool {
        self.columns.dom().contains(kind)
    }

    /// The column of `kind` exists and its slots are in it.
    pub open spec fn is_home(self, kind: u64) -> bool {
        self.has_column(kind) && self.columns[kind] is Home
    }

    /// The column of `kind` exists and its slots are with a borrower.
    pub open spec fn is_lent(self, kind: u64) -> bool {
        self.has_column(kind) && self.columns[kind] is Lent
    }

    /// The slots of the column of `kind`, in entity order.
    pub open spec fn cells(self, kind: u64) -> Seq<Option<C>>
        recommends
            self.is_home(kind),
    {
        self.columns[kind]->Home_0
    }

    /// One more entity; every column at home gains an empty slot for it.
    pub open spec fn spawn(self) -> Self {
        WorldView {
            entity_count: self.entity_count + 1,
            columns: self.columns.map_values(|state: ColumnState<C>| state.grown()),
        }
    }

    /// `n` entities more, created one after the other.
    pub open spec fn spawn_many(self, n: nat) -> Self
        decreases n,
    {
        if n == 0 {
            self
        } else {
            self.spawn_many((n - 1) as nat).spawn()
        }
    }

    /// `entity` now has `value` as its component of `kind`. A kind that had
    /// no column gets one with a slot for every entity, all others empty.
    pub open spec fn add(self, entity: nat, kind: u64, value: C) -> Self
        recommends
            entity < self.entity_count,
            !self.is_lent(kind),
    {
        let before = if self.has_column(kind) {
            self.cells(kind)
        } else {
            empty_slots::<C>(self.entity_count)
        };
        WorldView {
            entity_count: self.entity_count,
            columns: self.columns.insert(
                kind,
                ColumnState::Home(before.update(entity as int, Some(value))),
            ),
        }
    }

    /// The slots of the column of `kind` have been handed out.
    pub open spec fn lend(self, kind: u64) -> Self
        recommends
            self.is_home(kind),
    {
        WorldView {
            entity_count: self.entity_count,
            columns: self.columns.insert(kind, ColumnState::Lent),
        }
    }

    /// Whether `cells` can be the returning slots of the column of `kind`:
    /// that column is on loan, and there is an entity for every slot.
    pub open spec fn accepts(self, kind: u64, cells: Seq<Option<C>>) -> bool {
        self.is_lent(kind) && cells.len() <= self.entity_count
    }

    /// `cells` have come back as the slots of the column of `kind`, with an
    /// empty slot added for each entity created in the meantime.
    pub open spec fn restore(self, kind: u64, cells: Seq<Option<C>>) -> Self
        recommends
            self.accepts(kind, cells),
    {
        WorldView {
            entity_count: self.entity_count,
            columns: self.columns.insert(
                kind,
                ColumnState::Home(padded(cells, self.entity_count)),
            ),
        }
    }
}

/// The column of each kind, for a list of columns in which no kind repeats.
spec fn by_kind<C>(columns: Seq<Column<C>>) -> Map<u64, ColumnState<C>> {
    Map::new(
        |kind: u64| exists|i: int| 0 <= i < columns.len() && #[trigger] columns[i].kind() == kind,
        |kind: u64|
            columns[choose|i: int| 0 <= i < columns.len() && #[trigger] columns[i].kind() == kind]@,
    )
}

spec fn distinct_kinds<C>(columns: Seq<Column<C>>) -> bool {
    forall|i: int, j: int|
        0 <= i < j < columns.len() ==> #[trigger] columns[i].kind() != #[trigger] columns[j].kind()
}

proof fn lemma_by_kind_at<C>(columns: Seq<Column<C>>, i: int)
    requires
        distinct_kinds(columns),
        0 <= i < columns.len(),
    ensures
        by_kind(columns).dom().contains(columns[i].kind()),
        by_kind(columns)[columns[i].kind()] == columns[i]@,
{
    let kind = columns[i].kind();
    let j = choose|j: int| 0 <= j < columns.len() && #[trigger] columns[j].kind() == kind;
    assert(j == i) by {
        if j < i {
            assert(columns[j].kind() != columns[i].kind());
        } else if i < j {
            assert(columns[i].kind() != columns[j].kind());
        }
    }
}

/// Where every column at home has `entity_count` slots, so does the view.
proof fn lemma_view_valid<C>(columns: Seq<Column<C>>, entity_count: nat)
    requires
        distinct_kinds(columns),
        forall|i: int|
            0 <= i < columns.len() ==> (#[trigger] columns[i]@ matches ColumnState::Home(cells)
                ==> cells.len() == entity_count),
    ensures
        (WorldView { entity_count, columns: by_kind(columns) }).valid(),
{
    let view = WorldView { entity_count, columns: by_kind(columns) };
    assert forall|kind: u64| #[trigger] view.is_home(kind) implies view.cells(kind).len()
        == entity_count by {
        let i = choose|i: int| 0 <= i < columns.len() && #[trigger] columns[i].kind() == kind;
        lemma_by_kind_at(columns, i);
    }
}

proof fn lemma_by_kind_absent<C>(columns: Seq<Column<C>>, kind: u64)
    requires
        forall|i: int| 0 <= i < columns.len() ==> #[trigger] columns[i].kind() != kind,
    ensures
        !by_kind(columns).dom().contains(kind),
{
}

/// Lists that agree on kinds, with each state of `after` the grown state of
/// `before`, are one `map_values` apart.
proof fn lemma_by_kind_grown<C>(before: Seq<Column<C>>, after: Seq<Column<C>>)
    requires
        distinct_kinds(before),
        before.len() == after.len(),
        forall|i: int|
            0 <= i < before.len() ==> #[trigger] after[i].kind() == before[i].kind() && after[i]@
                == before[i]@.grown(),
    ensures
        distinct_kinds(after),
        by_kind(after) == by_kind(before).map_values(|state: ColumnState<C>| state.grown()),
{
    let grown = by_kind(before).map_values(|state: ColumnState<C>| state.grown());
    assert forall|kind: u64| by_kind(after).dom().contains(kind) implies grown.dom().contains(
        kind,
    ) && by_kind(after)[kind] == grown[kind] by {
        let i = choose|i: int| 0 <= i < after.len() && #[trigger] after[i].kind() == kind;
        assert(before[i].kind() == kind);
        lemma_by_kind_at(before, i);
        lemma_by_kind_at(after, i);
    }
    assert forall|kind: u64| grown.dom().contains(kind) implies by_kind(after).dom().contains(
        kind,
    ) by {
        let i = choose|i: int| 0 <= i < before.len() && #[trigger] before[i].kind() == kind;
        assert(after[i].kind() == kind);
    }
    assert(by_kind(after) =~= grown);
}

/// Replacing the column at `i` by one of the same kind replaces the state
/// of that kind and nothing else.
proof fn lemma_by_kind_update<C>(before: Seq<Column<C>>, after: Seq<Column<C>>, i: int)
    requires
        distinct_kinds(before),
        before.len() == after.len(),
        0 <= i < before.len(),
        after[i].kind() == before[i].kind(),
        forall|j: int| 0 <= j < before.len() && j != i ==> after[j] == before[j],
    ensures
        distinct_kinds(after),
        by_kind(after) == by_kind(before).insert(before[i].kind(), after[i]@),
{
    assert forall|a: int, b: int| 0 <= a < b < after.len() implies #[trigger] after[a].kind()
        != #[trigger] after[b].kind() by {
        assert(before[a].kind() != before[b].kind());
    }
    let updated = by_kind(before).insert(before[i].kind(), after[i]@);
    assert forall|kind: u64| by_kind(after).dom().contains(kind) implies updated.dom().contains(
        kind,
    ) && by_kind(after)[kind] == updated[kind] by {
        let j = choose|j: int| 0 <= j < after.len() && #[trigger] after[j].kind() == kind;
        assert(before[j].kind() == kind);
        lemma_by_kind_at(before, j);
        lemma_by_kind_at(after, j);
    }
    assert forall|kind: u64| updated.dom().contains(kind) implies by_kind(after).dom().contains(
        kind,
    ) by {
        if kind == before[i].kind() {
            assert(after[i].kind() == kind);
        } else {
            let j = choose|j: int| 0 <= j < before.len() && #[trigger] before[j].kind() == kind;
            assert(after[j].kind() == kind);
        }
    }
    assert(by_kind(after) =~= updated);
}

/// Appending a column of a kind that no column has adds the state of that
/// kind and nothing else.
proof fn lemma_by_kind_push<C>(before: Seq<Column<C>>, column: Column<C>)
    requires
        distinct_kinds(before),
        forall|i: int| 0 <= i < before.len() ==> #[trigger] before[i].kind() != column.kind(),
    ensures
        distinct_kinds(before.push(column)),
        by_kind(before.push(column)) == by_kind(before).insert(column.kind(), column@),
{
    let after = before.push(column);
    assert forall|a: int, b: int| 0 <= a < b < after.len() implies #[trigger] after[a].kind()
        != #[trigger] after[b].kind() by {
        if b < before.len() {
            assert(before[a].kind() != before[b].kind());
        } else {
            assert(before[a].kind() != column.kind());
        }
    }
    let inserted = by_kind(before).insert(column.kind(), column@);
    assert forall|kind: u64| by_kind(after).dom().contains(kind) implies inserted.dom().contains(
        kind,
    ) && by_kind(after)[kind] == inserted[kind] by {
        let j = choose|j: int| 0 <= j < after.len() && #[trigger] after[j].kind() == kind;
        lemma_by_kind_at(after, j);
        if j < before.len() {
            assert(before[j].kind() == kind);
            lemma_by_kind_at(before, j);
        }
    }
    assert forall|kind: u64| inserted.dom().contains(kind) implies by_kind(after).dom().contains(
        kind,
    ) by {
        if kind == column.kind() {
            assert(after[before.len() as int].kind() == kind);
        } else {
            let j = choose|j: int| 0 <= j < before.len() && #[trigger] before[j].kind() == kind;
            assert(after[j].kind() == kind);
        }
    }
    assert(by_kind(after) =~= inserted);
}

/// Entities and their components.
pub struct World<C> {
    entity_count: usize,
    columns: Vec<Column<C>>,
}

impl<C> View for World<C> {
    type V = WorldView<C>;

    closed spec fn view(&self) -> WorldView<C> {
        WorldView { entity_count: self.entity_count as nat, columns: by_kind(self.columns@) }
    }
}

impl<C> World<C> {
    #[verifier::type_invariant]
    spec fn well_formed(&self) -> bool {
        &&& distinct_kinds(self.columns@)
        &&& forall|i: int|
            0 <= i < self.columns.len() ==> (#[trigger] self.columns[i]@ matches ColumnState::Home(
                cells,
            ) ==> cells.len() == self.entity_count)
    }

    /// A world without entities.
    pub fn new() -> (world: Self)
        ensures
            world@ == WorldView::<C>::empty(),
            world@.valid(),
    {
        let world = World { entity_count: 0, columns: Vec::new() };
        assert(world@.columns =~= Map::empty());
        world
    }

    /// Creates an entity and returns its id, the number of entities that
    /// existed before. Every column gains an empty slot for it.
    pub fn spawn_entity(&mut self) -> (entity: usize)
        requires
            old(self)@.entity_count < usize::MAX,
        ensures
            entity == old(self)@.entity_count,
            final(self)@ == old(self)@.spawn(),
            final(self)@.valid(),
    {
        proof {
            use_type_invariant(&*self);
        }
        let entity = self.entity_count;
        let mut columns: Vec<Column<C>> = Vec::new();
        core::mem::swap(&mut columns, &mut self.columns);
        let ghost before = columns@;
        let mut i: usize = 0;
        while i < columns.len()
            invariant
                i <= columns.len(),
                columns.len() == before.len(),
                forall|j: int|
                    0 <= j < i ==> #[trigger] columns[j].kind() == before[j].kind() && columns[j]@
                        == before[j]@.grown(),
                forall|j: int| i <= j < columns.len() ==> columns[j] == before[j],
            decreases columns.len() - i,
        {
            columns[i].push_none();
            i = i + 1;
        }
        proof {
            lemma_by_kind_grown(before, columns@);
            assert forall|j: int| 0 <= j < columns.len() implies (#[trigger] columns[j]@ matches ColumnState::Home(
                cells,
            ) ==> cells.len() == entity + 1) by {
                assert(columns[j].kind() == before[j].kind());
            }
        }
        self.entity_count = entity + 1;
        self.columns = columns;
        proof {
            lemma_view_valid(self.columns@, self.entity_count as nat);
        }
        entity
    }

    /// Where in the list the column of `kind` stands, if there is one.
    fn position_of(&self, kind: u64) -> (place: Option<usize>)
        ensures
            match place {
                Some(i) => i < self.columns.len() && self.columns[i as int].kind() == kind,
                None => forall|j: int|
                    0 <= j < self.columns.len() ==> #[trigger] self.columns[j].kind() != kind,
            },
    {
        let mut i: usize = 0;
        while i < self.columns.len()
            invariant
                i <= self.columns.len(),
                forall|j: int| 0 <= j < i ==> #[trigger] self.columns[j].kind() != kind,
            decreases self.columns.len() - i,
        {
            if self.columns[i].try_as(kind).is_some() {
                return Some(i);
            }
            i = i + 1;
        }
        None
    }

    /// Gives `entity` the component `component` of kind `kind`, in place of
    /// any it had of that kind. The first component of a kind brings its
    /// column into being, with an empty slot for every other entity.
    ///
    /// Fails, changing nothing, while the column of `kind` is on loan.
    pub fn add_component_to_entity(&mut self, entity: usize, kind: u64, component: C) -> (r: Result<
        (),
        BorrowConflict,
    >)
        requires
            entity < old(self)@.entity_count,
        ensures
            match r {
                Ok(_) => !old(self)@.is_lent(kind) && final(self)@ == old(self)@.add(
                    entity as nat,
                    kind,
                    component,
                ),
                Err(_) => old(self)@.is_lent(kind) && final(self)@ == old(self)@,
            },
            final(self)@.valid(),
    {
        proof {
            use_type_invariant(&*self);
            lemma_view_valid(self.columns@, self.entity_count as nat);
        }
        let place = self.position_of(kind);
        let mut columns: Vec<Column<C>> = Vec::new();
        core::mem::swap(&mut columns, &mut self.columns);
        let ghost before = columns@;
        let r = match place {
            Some(i) => {
                proof {
                    lemma_by_kind_at(before, i as int);
                }
                let r = columns[i].insert(entity, component);
                proof {
                    lemma_by_kind_update(before, columns@, i as int);
                    assert(by_kind(before).insert(kind, before[i as int]@) =~= by_kind(before));
                }
                r
            },
            None => {
                let mut column = Column::new(kind, self.entity_count);
                let r = column.insert(entity, component);
                proof {
                    lemma_by_kind_absent(before, kind);
                    lemma_by_kind_push(before, column);
                }
                columns.push(column);
                r
            },
        };
        self.columns = columns;
        proof {
            lemma_view_valid(self.columns@, self.entity_count as nat);
        }
        r
    }

    /// Asks for exclusive use of the column of `kind`.
    ///
    /// A kind that no entity was ever given has no column: the answer is
    /// `Ok(None)`. Otherwise the slots leave the world inside a [`Lease`], and
    /// until [`World::release_component_vec`] brings them back every further
    /// request for this kind fails with [`BorrowConflict`].
    pub fn borrow_component_vec_mut(&mut self, kind: u64) -> (r: Result<
        Option<Lease<C>>,
        BorrowConflict,
    >)
        ensures
            match r {
                Ok(None) => !old(self)@.has_column(kind) && final(self)@ == old(self)@,
                Ok(Some(lease)) => {
                    &&& old(self)@.is_home(kind)
                    &&& lease.kind() == kind
                    &&& lease@ == old(self)@.cells(kind)
                    &&& final(self)@ == old(self)@.lend(kind)
                },
                Err(_) => old(self)@.is_lent(kind) && final(self)@ == old(self)@,
            },
            final(self)@.valid(),
    {
        proof {
            use_type_invariant(&*self);
            lemma_view_valid(self.columns@, self.entity_count as nat);
        }
        match self.position_of(kind) {
            Some(i) => {
                let mut columns: Vec<Column<C>> = Vec::new();
                core::mem::swap(&mut columns, &mut self.columns);
                let ghost before = columns@;
                proof {
                    lemma_by_kind_at(before, i as int);
                }
                let r = columns[i].lend();
                proof {
                    lemma_by_kind_update(before, columns@, i as int);
                    assert(by_kind(before).insert(kind, before[i as int]@) =~= by_kind(before));
                }
                self.columns = columns;
                proof {
                    lemma_view_valid(self.columns@, self.entity_count as nat);
                }
                match r {
                    Ok(lease) => Ok(Some(lease)),
                    Err(conflict) => Err(conflict),
                }
            },
            None => {
                proof {
                    lemma_by_kind_absent(self.columns@, kind);
                }
                Ok(None)
            },
        }
    }

    /// Ends the loan of `lease`: its slots become the column of its kind
    /// again, with an empty slot added for each entity created since.
    ///
    /// A lease that this world cannot have given out (its column is not on
    /// loan, or it has more slots than there are entities) is handed back
    /// and nothing changes.
    pub fn release_component_vec(&mut self, lease: Lease<C>) -> (r: Result<(), Lease<C>>)
        ensures
            match r {
                Ok(_) => {
                    &&& old(self)@.accepts(lease.kind(), lease@)
                    &&& final(self)@ == old(self)@.restore(lease.kind(), lease@)
                },
                Err(back) => {
                    &&& !old(self)@.accepts(lease.kind(), lease@)
                    &&& back == lease
                    &&& final(self)@ == old(self)@
                },
            },
            final(self)@.valid(),
    {
        proof {
            use_type_invariant(&*self);
            lemma_view_valid(self.columns@, self.entity_count as nat);
        }
        if lease.len() > self.entity_count {
            return Err(lease);
        }
        match self.position_of(lease.kind()) {
            Some(i) => {
                proof {
                    lemma_by_kind_at(self.columns@, i as int);
                }
                if !self.columns[i].is_lent() {
                    return Err(lease);
                }
                let mut columns: Vec<Column<C>> = Vec::new();
                core::mem::swap(&mut columns, &mut self.columns);
                let ghost before = columns@;
                columns[i].restore(lease, self.entity_count);
                proof {
                    lemma_by_kind_update(before, columns@, i as int);
                }
                self.columns = columns;
                proof {
                    lemma_view_valid(self.columns@, self.entity_count as nat);
                }
                Ok(())
            },
            None => {
                proof {
                    lemma_by_kind_absent(self.columns@, lease.kind());
                }
                Err(lease)
            },
        }
    }

    /// Whether the column of `kind` is on loan.
    pub fn is_borrowed(&self, kind: u64) -> (lent: bool)
        ensures
            lent == self@.is_lent(kind),
            self@.valid(),
    {
        proof {
            use_type_invariant(self);
            lemma_view_valid(self.columns@, self.entity_count as nat);
        }
        match self.position_of(kind) {
            Some(i) => {
                proof {
                    lemma_by_kind_at(self.columns@, i as int);
                }
                self.columns[i].is_lent()
            },
            None => {
                proof {
                    lemma_by_kind_absent(self.columns@, kind);
                }
                false
            },
        }
    }

    /// The number of entities created so far. Their ids are `0..entity_count`.
    pub fn entity_count(&self) -> (n: usize)
        ensures
            n == self@.entity_count,
            self@.valid(),
    {
        proof {
            use_type_invariant(self);
            lemma_view_valid(self.columns@, self.entity_count as nat);
        }
        self.entity_count
    }
}

} // verus!
