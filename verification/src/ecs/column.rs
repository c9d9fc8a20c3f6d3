//! One column of component slots: a slot per entity, each empty or holding a
//! value, tagged with the kind of component it stores.

use vstd::prelude::*;

verus! {

/// A column was asked for while an earlier loan of it was still out.
#[derive(Clone, Copy, Debug, PartialEq, Eq, Structural)]
pub struct BorrowConflict;

/// What a column holds, as contracts see it.
pub enum ColumnState<C> {
    /// The slots are in the column, indexed by entity.
    Home(Seq<Option<C>>),
    /// The slots are with a borrower and have not come back yet.
    Lent,
}

impl<C> ColumnState<C> {
    /// The state after one more entity has been created: slots that are at
    /// home gain an empty slot at the end, slots on loan are out of reach.
    pub open spec fn grown(self) -> Self {
        match self {
            ColumnState::Home(cells) => ColumnState::Home(cells.push(None)),
            ColumnState::Lent => ColumnState::Lent,
        }
    }
}

/// A sequence of `len` empty slots.
pub open spec fn empty_slots<C>(len: nat) -> Seq<Option<C>> {
    Seq::new(len, |i: int| None::<C>)
}

/// `cells`, followed by as many empty slots as it takes to reach `len`.
/// A sequence that is already that long is returned as it is.
pub open spec fn padded<C>(cells: Seq<Option<C>>, len: nat) -> Seq<Option<C>> {
    if cells.len() >= len {
        cells
    } else {
        cells + empty_slots::<C>((len - cells.len()) as nat)
    }
}

/// The slots of one column while they are out on loan. Whoever holds the
/// lease is the only one who can read or write them; their number is fixed.
#[derive(Debug)]
pub struct Lease<C> {
    kind: u64,
    cells: Vec<Option<C>>,
}

impl<C> View for Lease<C> {
    type V = Seq<Option<C>>;

    closed spec fn view(&self) -> Seq<Option<C>> {
        self.cells@
    }
}

impl<C> Lease<C> {
    /// The kind of the column these slots belong to.
    pub closed spec fn spec_kind(&self) -> u64 {
        self.kind
    }

    #[verifier::when_used_as_spec(spec_kind)]
    pub fn kind(&self) -> (k: u64)
        ensures
            k == self.spec_kind(),
    {
        self.kind
    }

    /// The number of slots, one per entity that existed when the lease was taken.
    pub fn len(&self) -> (n: usize)
        ensures
            n == self@.len(),
    {
        self.cells.len()
    }

    /// The slots in entity order.
    pub fn cells(&self) -> (s: &Vec<Option<C>>)
        ensures
            s@ == self@,
    {
        &self.cells
    }

    /// The component of `entity`, if it has one.
    pub fn get(&self, entity: usize) -> (r: Option<&C>)
        requires
            entity < self@.len(),
        ensures
            r == match self@[entity as int] {
                Some(c) => Some(&c),
                None => None,
            },
    {
        self.cells[entity].as_ref()
    }

    /// The component of `entity`, if it has one, to be changed in place.
    pub fn get_mut(&mut self, entity: usize) -> (r: Option<&mut C>)
        requires
            entity < old(self)@.len(),
        ensures
            final(self).kind() == old(self).kind(),
            match r {
                Some(component) => {
                    &&& old(self)@[entity as int] == Some(*component)
                    &&& final(self)@ == old(self)@.update(entity as int, Some(*final(component)))
                },
                None => {
                    &&& old(self)@[entity as int] is None
                    &&& final(self)@ == old(self)@
                },
            },
    {
        self.cells[entity].as_mut()
    }

    /// Replaces the slot of `entity` with `value` and returns what was there.
    /// Passing `None` removes the component.
    pub fn set(&mut self, entity: usize, value: Option<C>) -> (previous: Option<C>)
        requires
            entity < old(self)@.len(),
        ensures
            previous == old(self)@[entity as int],
            final(self)@ == old(self)@.update(entity as int, value),
            final(self).kind() == old(self).kind(),
    {
        let mut slot = value;
        core::mem::swap(&mut self.cells[entity], &mut slot);
        slot
    }
}

/// The storage for every component of one kind.
pub struct Column<C> {
    kind: u64,
    cells: Option<Vec<Option<C>>>,
}

impl<C> View for Column<C> {
    type V = ColumnState<C>;

    closed spec fn view(&self) -> ColumnState<C> {
        match self.cells {
            Some(cells) => ColumnState::Home(cells@),
            None => ColumnState::Lent,
        }
    }
}

impl<C> Column<C> {
    /// The kind of component this column stores.
    pub closed spec fn spec_kind(&self) -> u64 {
        self.kind
    }

    #[verifier::when_used_as_spec(spec_kind)]
    pub fn kind(&self) -> (k: u64)
        ensures
            k == self.spec_kind(),
    {
        self.kind
    }

    /// A column for `kind` with `len` slots, all empty.
    pub fn new(kind: u64, len: usize) -> (column: Self)
        ensures
            column.kind() == kind,
            column@ == ColumnState::Home(empty_slots::<C>(len as nat)),
    {
        let mut cells: Vec<Option<C>> = Vec::with_capacity(len);
        let mut i: usize = 0;
        while i < len
            invariant
                i <= len,
                cells@ == empty_slots::<C>(i as nat),
            decreases len - i,
        {
            cells.push(None);
            i = i + 1;
        }
        Column { kind, cells: Some(cells) }
    }

    /// Whether this is the column for components of `kind`.
    pub fn try_as(&self, kind: u64) -> (r: Option<&Self>)
        ensures
            r == if self.kind() == kind { Some(self) } else { None },
    {
        if self.kind == kind {
            Some(self)
        } else {
            None
        }
    }

    /// Whether the slots are out on loan.
    pub fn is_lent(&self) -> (lent: bool)
        ensures
            lent == (self@ is Lent),
    {
        self.cells.is_none()
    }

    /// Stores `value` as the component of `entity`, over whatever was there.
    /// Refused while the slots are on loan.
    pub fn insert(&mut self, entity: usize, value: C) -> (r: Result<(), BorrowConflict>)
        requires
            old(self)@ matches ColumnState::Home(cells) ==> entity < cells.len(),
        ensures
            final(self).kind() == old(self).kind(),
            match old(self)@ {
                ColumnState::Home(cells) => r.is_ok() && final(self)@ == ColumnState::Home(
                    cells.update(entity as int, Some(value)),
                ),
                ColumnState::Lent => r == Err::<(), _>(BorrowConflict) && final(self)@ == old(self)@,
            },
    {
        match self.cells.as_mut() {
            Some(cells) => {
                cells[entity] = Some(value);
                Ok(())
            },
            None => Err(BorrowConflict),
        }
    }

    /// Hands the slots out. Until they are restored the column is on loan,
    /// and a second request is a conflict.
    pub fn lend(&mut self) -> (r: Result<Lease<C>, BorrowConflict>)
        ensures
            final(self).kind() == old(self).kind(),
            final(self)@ is Lent,
            match old(self)@ {
                ColumnState::Home(cells) => r matches Ok(lease) && lease@ == cells && lease.kind()
                    == old(self).kind(),
                ColumnState::Lent => r is Err,
            },
    {
        match self.cells.take() {
            Some(cells) => Ok(Lease { kind: self.kind, cells }),
            None => Err(BorrowConflict),
        }
    }

    /// Takes the slots of `lease` back and ends the loan. Entities created
    /// while the slots were away get an empty slot each, up to `len` slots.
    ///
    /// The lease is one that this column gave out: the column is on loan,
    /// and the lease is of its kind.
    pub fn restore(&mut self, lease: Lease<C>, len: usize)
        requires
            old(self)@ is Lent,
            lease.kind() == old(self).kind(),
        ensures
            final(self).kind() == old(self).kind(),
            final(self)@ == ColumnState::Home(padded(lease@, len as nat)),
    {
        let mut cells = lease.cells;
        while cells.len() < len
            invariant
                cells@ == padded(lease@, cells@.len()),
                cells@.len() <= len || cells@ == lease@,
            decreases len - cells.len(),
        {
            cells.push(None);
        }
        self.cells = Some(cells);
    }

    /// Appends one empty slot. A column whose slots are on loan is left as it
    /// is: it is brought up to length when they come back.
    pub fn push_none(&mut self)
        ensures
            final(self).kind() == old(self).kind(),
            final(self)@ == old(self)@.grown(),
    {
        match self.cells.as_mut() {
            Some(cells) => {
                cells.push(None);
            },
            None => {},
        }
    }
}

} // verus!
