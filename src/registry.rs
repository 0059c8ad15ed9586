use crate::model::{VmError, VmHandle, VmHandleView, VmState};
use vstd::prelude::*;

verus! {

/// The registry's record of one machine. `io` is whatever the caller keeps to
/// reach the machine's console; the registry only stores and hands it out.
pub struct VmContext<Io> {
    pub handle: VmHandle,
    pub api_socket: String,
    pub attached: bool,
    pub io: Io,
}

pub ghost struct VmRecord {
    pub handle: VmHandleView,
    pub api_socket: Seq<char>,
    pub attached: bool,
}

impl<Io> View for VmContext<Io> {
    type V = VmRecord;

    open spec fn view(&self) -> VmRecord {
        VmRecord { handle: self.handle@, api_socket: self.api_socket@, attached: self.attached }
    }
}

/// The handles of a registry's records, in the order they were inserted.
pub open spec fn handles_of(records: Seq<VmRecord>) -> Seq<VmHandleView> {
    records.map_values(|r: VmRecord| r.handle)
}

/// A listing of the records: their handles, one for one, in the same order.
pub open spec fn lists(handles: Seq<VmHandle>, records: Seq<VmRecord>) -> bool {
    &&& handles.len() == records.len()
    &&& forall|i: int| 0 <= i < handles.len() ==> (#[trigger] handles[i])@ == records[i].handle
}

pub open spec fn has_guid(records: Seq<VmRecord>, guid: Seq<char>) -> bool {
    exists|i: int| 0 <= i < records.len() && (#[trigger] records[i]).handle.guid == guid
}

/// No two records share an identifier.
pub open spec fn unique_guids(records: Seq<VmRecord>) -> bool {
    forall|i: int, j: int|
        0 <= i < records.len() && 0 <= j < records.len() && i != j ==> (#[trigger] records[i]).handle.guid
            != (#[trigger] records[j]).handle.guid
}

/// The one record with the given identifier, for records with unique identifiers.
pub open spec fn index_of(records: Seq<VmRecord>, guid: Seq<char>) -> int {
    choose|i: int| 0 <= i < records.len() && (#[trigger] records[i]).handle.guid == guid
}

/// Records with one record's state replaced.
pub open spec fn with_state(records: Seq<VmRecord>, i: int, state: VmState) -> Seq<VmRecord> {
    records.update(
        i,
        VmRecord { handle: VmHandleView { state, ..records[i].handle }, ..records[i] },
    )
}

/// Records with one record's session flag replaced.
pub open spec fn with_attached(records: Seq<VmRecord>, i: int, attached: bool) -> Seq<VmRecord> {
    records.update(i, VmRecord { attached, ..records[i] })
}

/// Whether two texts hold the same characters.
fn same_text(a: &str, b: &str) -> (r: bool)
    ensures
        r == (a@ == b@),
{
    let n = a.unicode_len();
    if n != b.unicode_len() {
        return false;
    }
    let mut i: usize = 0;
    while i < n
        invariant
            n == a@.len(),
            n == b@.len(),
            i <= n,
            forall|j: int| 0 <= j < i ==> a@[j] == b@[j],
        decreases n - i,
    {
        if a.get_char(i) != b.get_char(i) {
            return false;
        }
        i = i + 1;
    }
    assert(a@ =~= b@);
    true
}

/// The single source of truth for which machines exist and in what state.
/// Records keep the order of insertion and are kept for the registry's whole
/// life, also once their machine has reached a terminal state.
pub struct Registry<Io> {
    entries: Vec<VmContext<Io>>,
}

impl<Io> View for Registry<Io> {
    type V = Seq<VmRecord>;

    closed spec fn view(&self) -> Seq<VmRecord> {
        self.entries@.map_values(|c: VmContext<Io>| c@)
    }
}

impl<Io> Registry<Io> {
    pub closed spec fn wf(&self) -> bool {
        unique_guids(self@)
    }

    /// The console handles kept for the record at position `i`.
    pub closed spec fn io_at(&self, i: int) -> Io {
        self.entries@[i].io
    }

    pub fn new() -> (r: Self)
        ensures
            r.wf(),
            r@ == Seq::<VmRecord>::empty(),
    {
        let r = Registry { entries: Vec::new() };
        assert(r@ =~= Seq::<VmRecord>::empty());
        r
    }

    pub fn len(&self) -> (r: usize)
        ensures
            r == self@.len(),
    {
        self.entries.len()
    }

    /// The position of the record with the given identifier.
    fn position(&self, guid: &str) -> (r: Option<usize>)
        requires
            self.wf(),
        ensures
            match r {
                Some(i) => i < self@.len() && self@[i as int].handle.guid == guid@ && i == index_of(
                    self@,
                    guid@,
                ),
                None => !has_guid(self@, guid@),
            },
    {
        let mut i: usize = 0;
        while i < self.entries.len()
            invariant
                self.wf(),
                i <= self.entries.len(),
                self@.len() == self.entries.len(),
                forall|j: int| 0 <= j < i ==> (#[trigger] self@[j]).handle.guid != guid@,
            decreases self.entries.len() - i,
        {
            assert(self@[i as int] == self.entries[i as int]@);
            if same_text(self.entries[i].handle.guid.as_str(), guid) {
                assert(self@[i as int].handle.guid == guid@);
                let ghost k = index_of(self@, guid@);
                assert(k == i as int);
                return Some(i);
            }
            i = i + 1;
        }
        None
    }

    /// Adds a record, unless one with its identifier is already there.
    pub fn insert(&mut self, context: VmContext<Io>) -> (r: Result<(), VmError>)
        requires
            old(self).wf(),
        ensures
            final(self).wf(),
            has_guid(old(self)@, context.handle.guid@) ==> r is Err && r->Err_0 is DuplicateIdentifier
                && final(self)@ == old(self)@,
            !has_guid(old(self)@, context.handle.guid@) ==> r is Ok && final(self)@ == old(self)@.push(
                context@,
            ) && final(self).io_at(old(self)@.len() as int) == context.io,
            forall|i: int| 0 <= i < old(self)@.len() ==> final(self).io_at(i) == old(self).io_at(i),
    {
        match self.position(context.handle.guid.as_str()) {
            Some(_) => Err(VmError::DuplicateIdentifier),
            None => {
                let ghost before = self@;
                self.entries.push(context);
                assert(self@ =~= before.push(context@));
                Ok(())
            },
        }
    }

    /// The record with the given identifier.
    pub fn lookup(&self, guid: &str) -> (r: Result<&VmContext<Io>, VmError>)
        requires
            self.wf(),
        ensures
            has_guid(self@, guid@) ==> r is Ok && r->Ok_0@ == self@[index_of(self@, guid@)]
                && r->Ok_0.io == self.io_at(index_of(self@, guid@)),
            !has_guid(self@, guid@) ==> r is Err && r->Err_0 is NotFound,
    {
        match self.position(guid) {
            Some(i) => Ok(&self.entries[i]),
            None => Err(VmError::NotFound),
        }
    }

    /// A copy of every handle, in insertion order; the console handles stay
    /// behind.
    pub fn list(&self) -> (r: Vec<VmHandle>)
        ensures
            lists(r@, self@),
    {
        let mut r: Vec<VmHandle> = Vec::new();
        let mut i: usize = 0;
        while i < self.entries.len()
            invariant
                i <= self.entries.len(),
                self@.len() == self.entries.len(),
                lists(r@, self@.subrange(0, i as int)),
            decreases self.entries.len() - i,
        {
            let h = self.entries[i].handle.clone();
            r.push(h);
            assert(self@[i as int] == self.entries[i as int]@);
            i = i + 1;
            assert(lists(r@, self@.subrange(0, i as int)));
        }
        assert(self@.subrange(0, i as int) =~= self@);
        r
    }

    /// Moves a machine to a new state where the lifecycle allows it. Nothing
    /// changes, and `false` comes back, for an unknown identifier or a
    /// transition that the lifecycle forbids.
    pub fn update_state(&mut self, guid: &str, state: VmState) -> (r: bool)
        requires
            old(self).wf(),
        ensures
            final(self).wf(),
            r == (has_guid(old(self)@, guid@) && old(self)@[index_of(
                old(self)@,
                guid@,
            )].handle.state.may_become(state)),
            r ==> final(self)@ == with_state(old(self)@, index_of(old(self)@, guid@), state),
            !r ==> final(self)@ == old(self)@,
            forall|i: int| 0 <= i < old(self)@.len() ==> final(self).io_at(i) == old(self).io_at(i),
    {
        match self.position(guid) {
            None => false,
            Some(i) => {
                assert(self@[i as int] == self.entries[i as int]@);
                if self.entries[i].handle.state.can_become(state) {
                    let ghost before = self@;
                    self.entries[i].handle.state = state;
                    assert(self@ =~= with_state(before, i as int, state));
                    true
                } else {
                    false
                }
            },
        }
    }

    /// Marks a console session as attached to a machine. At most one session
    /// is attached to a machine at a time: a second attach is refused.
    pub fn attach(&mut self, guid: &str) -> (r: Result<(), VmError>)
        requires
            old(self).wf(),
        ensures
            final(self).wf(),
            !has_guid(old(self)@, guid@) ==> r is Err && r->Err_0 is NotFound,
            has_guid(old(self)@, guid@) && old(self)@[index_of(old(self)@, guid@)].attached ==> r is Err
                && r->Err_0 is AlreadyAttached,
            has_guid(old(self)@, guid@) && !old(self)@[index_of(old(self)@, guid@)].attached ==> r is Ok,
            r is Ok ==> final(self)@ == with_attached(old(self)@, index_of(old(self)@, guid@), true),
            r is Err ==> final(self)@ == old(self)@,
            forall|i: int| 0 <= i < old(self)@.len() ==> final(self).io_at(i) == old(self).io_at(i),
    {
        match self.position(guid) {
            None => Err(VmError::NotFound),
            Some(i) => {
                assert(self@[i as int] == self.entries[i as int]@);
                if self.entries[i].attached {
                    Err(VmError::AlreadyAttached)
                } else {
                    let ghost before = self@;
                    self.entries[i].attached = true;
                    assert(self@ =~= with_attached(before, i as int, true));
                    Ok(())
                }
            },
        }
    }

    /// Ends the console session of a machine, so that another may attach.
    /// Returns whether the identifier was known.
    pub fn detach(&mut self, guid: &str) -> (r: bool)
        requires
            old(self).wf(),
        ensures
            final(self).wf(),
            r == has_guid(old(self)@, guid@),
            r ==> final(self)@ == with_attached(old(self)@, index_of(old(self)@, guid@), false),
            !r ==> final(self)@ == old(self)@,
            forall|i: int| 0 <= i < old(self)@.len() ==> final(self).io_at(i) == old(self).io_at(i),
    {
        match self.position(guid) {
            None => false,
            Some(i) => {
                let ghost before = self@;
                self.entries[i].attached = false;
                assert(self@ =~= with_attached(before, i as int, false));
                true
            },
        }
    }
}

} // verus!
