use vstd::prelude::*;

use crate::error::{text, FlameError};
use crate::fmt::{append_decimal, decimal_chars};
use crate::storage::owners::{
    lemma_owners_roundtrip, owner_line, owner_lines_well_formed, owners_text, parse_owners,
    push_owner_line, spec_parse_owners, owners_error, spec_owners_error,
};

verus! {

/// The identifier of a stored object; the first object saved gets 1.
pub type ObjectId = u64;

/// A stored object: it has an id, given when it is first saved, and an owner.
pub trait Object {
    fn id(&self) -> ObjectId;

    fn set_id(&mut self, id: ObjectId);

    fn owner(&self) -> ObjectId;
}

/// Selects the objects of one owner.
pub struct Filter {
    pub owner: ObjectId,
}

/// What an object store holds: the size of every record (0 until the first
/// save), the image of the data file, and the `(id, owner)` index in save order.
pub struct StorageView {
    pub record_size: nat,
    pub data: Seq<u8>,
    pub owners: Seq<(u64, u64)>,
}

/// `bytes` written over `data` at `off`; the file grows as needed and a gap
/// before `off` reads as zeros.
pub open spec fn write_at(data: Seq<u8>, off: nat, bytes: Seq<u8>) -> Seq<u8> {
    if off + bytes.len() <= data.len() {
        data.subrange(0, off as int) + bytes + data.subrange((off + bytes.len()) as int, data.len() as int)
    } else if off <= data.len() {
        data.subrange(0, off as int) + bytes
    } else {
        data + Seq::new((off - data.len()) as nat, |i: int| 0u8) + bytes
    }
}

/// The byte offset of object `id` in the data file.
pub open spec fn record_offset(record_size: nat, id: u64) -> nat {
    ((id - 1) * record_size) as nat
}

/// The id the next save hands out.
pub open spec fn spec_next_id(v: StorageView) -> nat {
    if v.record_size == 0 {
        1
    } else {
        v.data.len() / v.record_size + 1
    }
}

/// Whether the data file holds the whole record of `id`.
pub open spec fn has_record(v: StorageView, id: u64) -> bool {
    record_offset(v.record_size, id) + v.record_size <= v.data.len()
}

/// The record stored for `id`.
pub open spec fn record_at(v: StorageView, id: u64) -> Seq<u8> {
    v.data.subrange(
        record_offset(v.record_size, id) as int,
        (record_offset(v.record_size, id) + v.record_size) as int,
    )
}

/// The record size after saving a record of `len` bytes: the first save fixes it.
pub open spec fn size_after_save(v: StorageView, len: nat) -> nat {
    if v.record_size == 0 {
        len
    } else {
        v.record_size
    }
}

/// Saving is refused when the record size is fixed and the record differs from it.
pub open spec fn save_accepts(v: StorageView, len: nat) -> bool {
    v.record_size == 0 || len == v.record_size
}

pub open spec fn spec_save(v: StorageView, id: u64, record: Seq<u8>, owner: u64) -> StorageView {
    let size = size_after_save(v, record.len());
    StorageView {
        record_size: size,
        data: write_at(v.data, record_offset(size, id), record),
        owners: v.owners.push((id, owner)),
    }
}

pub open spec fn spec_update(v: StorageView, id: u64, record: Seq<u8>) -> StorageView {
    StorageView {
        record_size: v.record_size,
        data: write_at(v.data, record_offset(v.record_size, id), record),
        owners: v.owners,
    }
}

/// The ids of `owner`'s objects, in the order they were saved.
pub open spec fn ids_of(owners: Seq<(u64, u64)>, owner: u64) -> Seq<u64>
    decreases owners.len(),
{
    if owners.len() == 0 {
        Seq::empty()
    } else if owners.last().1 == owner {
        ids_of(owners.drop_last(), owner).push(owners.last().0)
    } else {
        ids_of(owners.drop_last(), owner)
    }
}

/// What a save asks of the files: where the record goes, the record size to
/// store when it was fixed by this save, and the line to append to the owner index.
pub struct StorageWrite {
    pub offset: u64,
    pub metadata_size: Option<usize>,
    pub owner_line: Vec<u8>,
}

/// Fixed-size records addressed by id, with an index from owners to ids.
pub struct ObjectStorage {
    record_size: usize,
    data: Vec<u8>,
    owners: Vec<(u64, u64)>,
}

impl View for ObjectStorage {
    type V = StorageView;

    closed spec fn view(&self) -> StorageView {
        StorageView { record_size: self.record_size as nat, data: self.data@, owners: self.owners@ }
    }
}

/// Writes `bytes` over `data` at `off`, growing it as needed.
fn write_bytes_at(data: &mut Vec<u8>, off: usize, bytes: &Vec<u8>)
    requires
        off + bytes.len() <= usize::MAX,
    ensures
        final(data)@ == write_at(old(data)@, off as nat, bytes@),
{
    let ghost d0 = data@;
    if data.len() < off {
        while data.len() < off
            invariant
                d0.len() <= data.len() <= off,
                data@ == d0 + Seq::new((data.len() - d0.len()) as nat, |i: int| 0u8),
            decreases off - data.len(),
        {
            data.push(0u8);
            assert(data@ =~= d0 + Seq::new((data.len() - d0.len()) as nat, |i: int| 0u8));
        }
    }
    let ghost padded = data@;
    let mut k: usize = 0;
    while k < bytes.len()
        invariant
            off + bytes.len() <= usize::MAX,
            k <= bytes.len(),
            padded.len() >= off,
            data.len() == if off + k <= padded.len() {
                padded.len() as int
            } else {
                off + k
            },
            forall|j: int| 0 <= j < off ==> data@[j] == padded[j],
            forall|j: int| 0 <= j < k ==> data@[off + j] == bytes@[j],
            forall|j: int| off + k <= j < data.len() ==> data@[j] == padded[j],
        decreases bytes.len() - k,
    {
        if off + k < data.len() {
            data.set(off + k, bytes[k]);
        } else {
            data.push(bytes[k]);
        }
        k = k + 1;
    }
    proof {
        let w = write_at(d0, off as nat, bytes@);
        if off + bytes.len() <= d0.len() {
            assert(padded =~= d0);
            assert(data@ =~= w);
        } else if off <= d0.len() {
            assert(padded =~= d0);
            assert(data@ =~= w);
        } else {
            assert(data@ =~= w);
        }
    }
}

/// The message for a record whose size is not the store's.
pub open spec fn size_mismatch_message(n: nat, size: nat) -> Seq<char> {
    "data size mismatch: "@ + decimal_chars(n) + " != "@ + decimal_chars(size)
}

fn size_mismatch(n: usize, size: usize) -> (r: FlameError)
    ensures
        r matches FlameError::InvalidState(m) && m@ == size_mismatch_message(n as nat, size as nat),
{
    proof {
        reveal_strlit("data size mismatch: ");
        reveal_strlit(" != ");
    }
    let mut m = text("data size mismatch: ");
    append_decimal(&mut m, n as u64);
    m.append(" != ");
    append_decimal(&mut m, size as u64);
    FlameError::InvalidState(m)
}

impl ObjectStorage {
    /// The store is usable: its data file is shorter than the largest size.
    pub closed spec fn wf(&self) -> bool {
        self.data.len() < usize::MAX
    }

    /// A store over the loaded files: the record size from the metadata file,
    /// the data file and the owner index text; an owner index field that is
    /// not a `u64` is an internal error with the words parsing it gives.
    pub fn new(record_size: usize, data: Vec<u8>, owners_text: &Vec<u8>) -> (r: Result<
        Self,
        FlameError,
    >)
        requires
            data.len() < usize::MAX,
            owner_lines_well_formed(owners_text@),
        ensures
            r is Ok <==> spec_parse_owners(owners_text@) is Some,
            r matches Ok(s) ==> s.wf() && s@ == (StorageView {
                record_size: record_size as nat,
                data: data@,
                owners: spec_parse_owners(owners_text@)->0,
            }),
            r matches Err(e) ==> (e matches FlameError::Internal(m) && m@ == spec_owners_error(
                owners_text@,
            )),
    {
        match parse_owners(owners_text) {
            Some(owners) => Ok(ObjectStorage { record_size, data, owners }),
            None => Err(FlameError::Internal(owners_error(owners_text))),
        }
    }

    /// The id that the next save gives its object.
    pub fn next_id(&self) -> (id: u64)
        requires
            self.wf(),
        ensures
            id == spec_next_id(self@),
    {
        if self.record_size == 0 {
            1
        } else {
            (self.data.len() / self.record_size) as u64 + 1
        }
    }

    /// Saves an encoded object that carries the id `next_id` gave it, owned by
    /// `owner`. The first save fixes the record size; a record of another size is
    /// refused and nothing changes.
    pub fn save(&mut self, id: u64, record: &Vec<u8>, owner: u64) -> (r: Result<
        StorageWrite,
        FlameError,
    >)
        requires
            old(self).wf(),
            id == spec_next_id(old(self)@),
            old(self)@.data.len() + record.len() < usize::MAX,
        ensures
            final(self).wf(),
            r is Ok <==> save_accepts(old(self)@, record@.len()),
            r matches Ok(w) ==> final(self)@ == spec_save(old(self)@, id, record@, owner),
            r matches Ok(w) ==> w.offset == record_offset(final(self)@.record_size, id),
            r matches Ok(w) ==> w.owner_line@ == owner_line(id, owner),
            r matches Ok(w) ==> (w.metadata_size is Some <==> old(self)@.record_size == 0),
            r matches Ok(w) ==> (w.metadata_size matches Some(n) ==> n == record.len()),
            r matches Err(e) ==> final(self)@ == old(self)@,
            r matches Err(e) ==> (e matches FlameError::InvalidState(m) && m@
                == size_mismatch_message(record@.len(), old(self)@.record_size)),
    {
        let mut metadata_size: Option<usize> = None;
        if self.record_size == 0 {
            self.record_size = record.len();
            metadata_size = Some(record.len());
        } else if record.len() != self.record_size {
            return Err(size_mismatch(record.len(), self.record_size));
        }
        proof {
            lemma_save_offset(old(self)@, id, record@.len());
        }
        let off = self.offset_of(id);
        write_bytes_at(&mut self.data, off, record);
        self.owners.push((id, owner));
        let mut line: Vec<u8> = Vec::new();
        push_owner_line(id, owner, &mut line);
        proof {
            assert(line@ =~= owner_line(id, owner));
            assert(self.data@.len() <= old(self)@.data.len() + record.len());
        }
        Ok(StorageWrite { offset: off as u64, metadata_size, owner_line: line })
    }

    /// Overwrites the stored object `id` with an encoded object of the record size.
    pub fn update(&mut self, id: u64, record: &Vec<u8>) -> (r: Result<u64, FlameError>)
        requires
            old(self).wf(),
            id >= 1,
            record_offset(old(self)@.record_size, id) + record.len() < usize::MAX,
        ensures
            final(self).wf(),
            r is Ok <==> record@.len() == old(self)@.record_size,
            r matches Ok(off) ==> final(self)@ == spec_update(old(self)@, id, record@) && off
                == record_offset(old(self)@.record_size, id),
            r matches Err(e) ==> final(self)@ == old(self)@,
            r matches Err(e) ==> (e matches FlameError::InvalidState(m) && m@
                == size_mismatch_message(record@.len(), old(self)@.record_size)),
    {
        if record.len() != self.record_size {
            return Err(size_mismatch(record.len(), self.record_size));
        }
        let off = self.offset_of(id);
        write_bytes_at(&mut self.data, off, record);
        Ok(off as u64)
    }

    fn offset_of(&self, id: u64) -> (off: usize)
        requires
            id >= 1,
            record_offset(self@.record_size, id) <= usize::MAX,
        ensures
            off == record_offset(self@.record_size, id),
    {
        if self.record_size == 0 {
            assert(record_offset(0, id) == 0) by (nonlinear_arith);
            return 0;
        }
        assert((id - 1) <= (id - 1) * self.record_size) by (nonlinear_arith)
            requires
                self.record_size > 0,
                id >= 1,
        ;
        let k = (id - 1) as usize;
        k * self.record_size
    }

    /// The stored object `id`; an error when the data file ends before its record does.
    pub fn load(&self, id: u64) -> (r: Result<Vec<u8>, FlameError>)
        requires
            self.wf(),
            id >= 1,
            record_offset(self@.record_size, id) + self@.record_size <= usize::MAX,
        ensures
            r is Ok <==> has_record(self@, id),
            r matches Ok(rec) ==> rec@ == record_at(self@, id),
            r matches Err(e) ==> e is Internal,
    {
        let off = self.offset_of(id);
        let size = self.record_size;
        if off + size > self.data.len() {
            return Err(FlameError::Internal(text("failed to fill whole buffer")));
        }
        let mut out: Vec<u8> = Vec::new();
        let mut k: usize = 0;
        while k < size
            invariant
                off + size <= self.data.len(),
                k <= size,
                size == self.record_size,
                out@ == self.data@.subrange(off as int, off + k),
            decreases size - k,
        {
            out.push(self.data[off + k]);
            k = k + 1;
            assert(out@ =~= self.data@.subrange(off as int, off + k));
        }
        Ok(out)
    }

    /// The stored objects of the filter's owner, in the order they were saved.
    pub fn list(&self, filter: &Filter) -> (r: Result<Vec<Vec<u8>>, FlameError>)
        requires
            self.wf(),
            forall|i: int|
                0 <= i < ids_of(self@.owners, filter.owner).len() ==> {
                    &&& #[trigger] ids_of(self@.owners, filter.owner)[i] >= 1
                    &&& record_offset(self@.record_size, ids_of(self@.owners, filter.owner)[i])
                        + self@.record_size <= usize::MAX
                },
        ensures
            r is Ok <==> forall|i: int|
                0 <= i < ids_of(self@.owners, filter.owner).len() ==> has_record(
                    self@,
                    #[trigger] ids_of(self@.owners, filter.owner)[i],
                ),
            r matches Ok(recs) ==> recs.len() == ids_of(self@.owners, filter.owner).len() && forall|
                i: int,
            |
                0 <= i < recs.len() ==> #[trigger] recs[i]@ == record_at(
                    self@,
                    ids_of(self@.owners, filter.owner)[i],
                ),
    {
        let ids = self.ids_of_owner(filter.owner);
        let mut out: Vec<Vec<u8>> = Vec::new();
        let mut i: usize = 0;
        while i < ids.len()
            invariant
                self.wf(),
                ids@ == ids_of(self@.owners, filter.owner),
                forall|j: int|
                    0 <= j < ids@.len() ==> {
                        &&& #[trigger] ids@[j] >= 1
                        &&& record_offset(self@.record_size, ids@[j]) + self@.record_size
                            <= usize::MAX
                    },
                i <= ids.len(),
                out.len() == i,
                forall|j: int| 0 <= j < i ==> has_record(self@, #[trigger] ids@[j]),
                forall|j: int| 0 <= j < i ==> #[trigger] out[j]@ == record_at(self@, ids@[j]),
            decreases ids.len() - i,
        {
            let id = ids[i];
            match self.load(id) {
                Ok(rec) => {
                    out.push(rec);
                },
                Err(e) => {
                    return Err(e);
                },
            }
            i = i + 1;
        }
        Ok(out)
    }

    /// The length of the data file.
    pub fn data_len(&self) -> (r: usize)
        ensures
            r == self@.data.len(),
    {
        self.data.len()
    }

    /// The size of every record, 0 before the first save.
    pub fn record_size(&self) -> (r: usize)
        ensures
            r == self@.record_size,
    {
        self.record_size
    }

    /// The ids of the objects of `owner`, in the order they were saved.
    pub fn ids_of_owner(&self, owner: u64) -> (ids: Vec<u64>)
        ensures
            ids@ == ids_of(self@.owners, owner),
    {
        let mut ids: Vec<u64> = Vec::new();
        let mut i: usize = 0;
        while i < self.owners.len()
            invariant
                i <= self.owners.len(),
                ids@ == ids_of(self.owners@.subrange(0, i as int), owner),
            decreases self.owners.len() - i,
        {
            let (id, o) = self.owners[i];
            proof {
                let sub = self.owners@.subrange(0, i + 1);
                assert(sub.drop_last() =~= self.owners@.subrange(0, i as int));
                assert(sub.last() == (id, o));
            }
            if o == owner {
                ids.push(id);
            }
            i = i + 1;
        }
        assert(self.owners@.subrange(0, self.owners.len() as int) =~= self.owners@);
        ids
    }
}

/// Saving an object and loading its id gives the saved record back.
pub proof fn law_load_after_save(v: StorageView, id: u64, record: Seq<u8>, owner: u64)
    requires
        id == spec_next_id(v),
        save_accepts(v, record.len()),
    ensures
        has_record(spec_save(v, id, record, owner), id),
        record_at(spec_save(v, id, record, owner), id) == record,
{
    let size = size_after_save(v, record.len());
    let n = spec_save(v, id, record, owner);
    lemma_save_offset(v, id, record.len());
    let off = record_offset(size, id);
    assert(n.data.subrange(off as int, (off + size) as int) =~= record);
}

proof fn lemma_save_offset(v: StorageView, id: u64, len: nat)
    requires
        id == spec_next_id(v),
        save_accepts(v, len),
    ensures
        record_offset(size_after_save(v, len), id) <= v.data.len(),
        size_after_save(v, len) > 0 && (v.record_size == 0 ==> v.data.len() == 0) ==> v.data.len()
            < record_offset(size_after_save(v, len), id) + size_after_save(v, len),
{
    let size = size_after_save(v, len);
    if v.record_size == 0 {
        assert(record_offset(size, id) == 0) by (nonlinear_arith)
            requires
                id == 1,
        ;
    } else {
        let q = v.data.len() / v.record_size;
        assert(q * size <= v.data.len() < q * size + size) by (nonlinear_arith)
            requires
                q == v.data.len() / v.record_size,
                size == v.record_size,
                size > 0,
        ;
        assert(record_offset(size, id) == q * size) by (nonlinear_arith)
            requires
                id - 1 == q,
        ;
    }
}

/// Ids are handed out in sequence: after a save of a nonempty record the next id
/// is one more than the one just used.
pub proof fn law_ids_are_sequential(v: StorageView, id: u64, record: Seq<u8>, owner: u64)
    requires
        id == spec_next_id(v),
        save_accepts(v, record.len()),
        record.len() > 0,
        v.record_size == 0 ==> v.data.len() == 0,
    ensures
        spec_next_id(spec_save(v, id, record, owner)) == id + 1,
{
    let size = size_after_save(v, record.len());
    let n = spec_save(v, id, record, owner);
    lemma_save_offset(v, id, record.len());
    let off = record_offset(size, id);
    assert(n.data.len() == off + size);
    assert((id - 1) * size + size == id * size) by (nonlinear_arith);
    assert(n.data.len() / size == id) by (nonlinear_arith)
        requires
            n.data.len() == id * size,
            size > 0,
    ;
}

/// Updating an object and loading its id gives the new record back.
pub proof fn law_load_after_update(v: StorageView, id: u64, record: Seq<u8>)
    requires
        record.len() == v.record_size,
    ensures
        has_record(spec_update(v, id, record), id),
        record_at(spec_update(v, id, record), id) == record,
{
    let n = spec_update(v, id, record);
    let off = record_offset(v.record_size, id);
    assert(n.data.subrange(off as int, (off + v.record_size) as int) =~= record);
}

/// Updating one object leaves every other stored object as it was.
pub proof fn law_update_keeps_others(v: StorageView, id: u64, other: u64, record: Seq<u8>)
    requires
        record.len() == v.record_size,
        id >= 1,
        other >= 1,
        other != id,
        has_record(v, other),
    ensures
        has_record(spec_update(v, id, record), other),
        record_at(spec_update(v, id, record), other) == record_at(v, other),
{
    let size = v.record_size;
    let n = spec_update(v, id, record);
    let a = record_offset(size, id);
    let b = record_offset(size, other);
    if size > 0 {
        assert(a + size <= b || b + size <= a) by (nonlinear_arith)
            requires
                a == (id - 1) * size,
                b == (other - 1) * size,
                id != other,
                size > 0,
        ;
    }
    assert(n.data.subrange(b as int, (b + size) as int) =~= v.data.subrange(b as int, (b + size) as int));
}

/// The index lists an owner's objects in save order: a save appends the new id
/// to its owner's list and leaves the other owners' lists alone.
pub proof fn law_list_order_after_save(
    v: StorageView,
    id: u64,
    record: Seq<u8>,
    owner: u64,
    other: u64,
)
    requires
        other != owner,
    ensures
        ids_of(spec_save(v, id, record, owner).owners, owner) == ids_of(v.owners, owner).push(id),
        ids_of(spec_save(v, id, record, owner).owners, other) == ids_of(v.owners, other),
{
    let o = spec_save(v, id, record, owner).owners;
    assert(o.drop_last() =~= v.owners);
}

/// The owner lines a store appends read back as the index they describe.
pub proof fn law_owner_index_roundtrip(es: Seq<(u64, u64)>)
    ensures
        owner_lines_well_formed(owners_text(es)),
        spec_parse_owners(owners_text(es)) == Some(es),
{
    lemma_owners_roundtrip(es);
}

/// A store with nothing saved yet.
pub open spec fn empty_view() -> StorageView {
    StorageView { record_size: 0, data: Seq::empty(), owners: Seq::empty() }
}

/// The store after saving each `(record, owner)` of `rs` in turn, each under
/// the next id.
pub open spec fn saves(v: StorageView, rs: Seq<(Seq<u8>, u64)>) -> StorageView
    decreases rs.len(),
{
    if rs.len() == 0 {
        v
    } else {
        let p = saves(v, rs.drop_last());
        spec_save(p, spec_next_id(p) as u64, rs.last().0, rs.last().1)
    }
}

/// Saving records of one size into a new store, one after another: the
/// objects get ids 1, 2, 3, ... in save order, each id loads the record
/// saved under it, the next id is one past the last, and the owner index
/// lists every `(id, owner)` in save order.
pub proof fn law_saves_from_empty(rs: Seq<(Seq<u8>, u64)>, size: nat)
    requires
        size > 0,
        rs.len() < u64::MAX,
        forall|i: int| 0 <= i < rs.len() ==> (#[trigger] rs[i]).0.len() == size,
    ensures
        saves(empty_view(), rs).data.len() == rs.len() * size,
        rs.len() > 0 ==> saves(empty_view(), rs).record_size == size,
        spec_next_id(saves(empty_view(), rs)) == rs.len() + 1,
        forall|i: int|
            0 <= i < rs.len() ==> #[trigger] has_record(saves(empty_view(), rs), (i + 1) as u64),
        forall|i: int|
            0 <= i < rs.len() ==> #[trigger] record_at(saves(empty_view(), rs), (i + 1) as u64)
                == rs[i].0,
        saves(empty_view(), rs).owners == Seq::new(rs.len(), |i: int| ((i + 1) as u64, rs[i].1)),
    decreases rs.len(),
{
    let w = saves(empty_view(), rs);
    if rs.len() == 0 {
        assert(w.owners =~= Seq::new(0, |i: int| ((i + 1) as u64, rs[i].1)));
    } else {
        let n = rs.len();
        let front = rs.drop_last();
        assert forall|i: int| 0 <= i < front.len() implies (#[trigger] front[i]).0.len() == size by {
            assert(front[i] == rs[i]);
        }
        law_saves_from_empty(front, size);
        let p = saves(empty_view(), front);
        let id = spec_next_id(p);
        assert(id == n);
        let last = rs.last();
        assert(last == rs[n - 1]);
        assert(size_after_save(p, last.0.len()) == size) by {
            if n > 1 {
                assert(p.record_size == size);
            } else {
                assert(p.record_size == 0);
            }
        }
        assert(p.record_size == 0 ==> p.data.len() == 0) by {
            if n > 1 {
                assert(p.record_size == size);
            }
        }
        let off = record_offset(size, id as u64);
        assert(off == (n - 1) * size) by (nonlinear_arith)
            requires
                off == ((id - 1) * size) as nat,
                id == n,
                n >= 1,
        ;
        assert(p.data.len() == off);
        assert(w.data =~= p.data + last.0);
        assert(w.data.len() == n * size) by (nonlinear_arith)
            requires
                w.data.len() == off + size,
                off == (n - 1) * size,
        ;
        assert(w.data.len() / size == n) by (nonlinear_arith)
            requires
                w.data.len() == n * size,
                size > 0,
        ;
        assert forall|i: int|
            0 <= i < rs.len() implies has_record(w, (i + 1) as u64)
                && #[trigger] record_at(w, (i + 1) as u64) == rs[i].0 by {
            let o = record_offset(size, (i + 1) as u64);
            assert(o == i * size) by (nonlinear_arith)
                requires
                    o == (((i + 1) as u64 - 1) * size) as nat,
                    0 <= i < u64::MAX,
            ;
            if i < n - 1 {
                assert(o + size <= off) by (nonlinear_arith)
                    requires
                        o == i * size,
                        off == (n - 1) * size,
                        i < n - 1,
                        size > 0,
                ;
                assert(record_at(p, (i + 1) as u64) == rs[i].0);
                assert(record_at(w, (i + 1) as u64) =~= record_at(p, (i + 1) as u64));
            } else {
                assert(o == off);
                assert(record_at(w, (i + 1) as u64) =~= last.0);
            }
        }
        assert(w.owners =~= Seq::new(rs.len(), |i: int| ((i + 1) as u64, rs[i].1)));
        assert forall|i: int|
            0 <= i < rs.len() implies #[trigger] has_record(saves(empty_view(), rs), (i + 1) as u64) by {
            assert(record_at(w, (i + 1) as u64) == rs[i].0);
        }
    }
}

/// The ids, in save order, of the objects of `owner` among records saved one
/// after another into a new store.
pub open spec fn owned_ids(rs: Seq<(Seq<u8>, u64)>, owner: u64) -> Seq<u64>
    decreases rs.len(),
{
    if rs.len() == 0 {
        Seq::empty()
    } else if rs.last().1 == owner {
        owned_ids(rs.drop_last(), owner).push(rs.len() as u64)
    } else {
        owned_ids(rs.drop_last(), owner)
    }
}

/// The store after each `(id, record)` of `us` overwrites its object, in turn.
pub open spec fn updates(v: StorageView, us: Seq<(u64, Seq<u8>)>) -> StorageView
    decreases us.len(),
{
    if us.len() == 0 {
        v
    } else {
        spec_update(updates(v, us.drop_last()), us.last().0, us.last().1)
    }
}

/// The record object `id` holds: the last update of it, else what was saved
/// under it.
pub open spec fn latest(rs: Seq<(Seq<u8>, u64)>, us: Seq<(u64, Seq<u8>)>, id: u64) -> Seq<u8>
    decreases us.len(),
{
    if us.len() == 0 {
        rs[id - 1].0
    } else if us.last().0 == id {
        us.last().1
    } else {
        latest(rs, us.drop_last(), id)
    }
}

proof fn lemma_owned_ids(rs: Seq<(Seq<u8>, u64)>, size: nat, owner: u64)
    requires
        size > 0,
        rs.len() < u64::MAX,
        forall|i: int| 0 <= i < rs.len() ==> (#[trigger] rs[i]).0.len() == size,
    ensures
        ids_of(saves(empty_view(), rs).owners, owner) == owned_ids(rs, owner),
    decreases rs.len(),
{
    if rs.len() > 0 {
        let front = rs.drop_last();
        assert forall|i: int| 0 <= i < front.len() implies (#[trigger] front[i]).0.len() == size by {
            assert(front[i] == rs[i]);
        }
        lemma_owned_ids(front, size, owner);
        law_saves_from_empty(front, size);
        let p = saves(empty_view(), front);
        let o = saves(empty_view(), rs).owners;
        assert(o == p.owners.push((rs.len() as u64, rs.last().1)));
        assert(o.drop_last() =~= p.owners);
    }
}

/// Objects saved one after another into a new store and then updated, each
/// update with a record of the store's size: every object still loads, and
/// loads the last record written to it; the owner index is untouched by the
/// updates, so an owner's objects are listed in save order, each with its
/// latest record.
pub proof fn law_saves_then_updates(
    rs: Seq<(Seq<u8>, u64)>,
    us: Seq<(u64, Seq<u8>)>,
    size: nat,
    owner: u64,
)
    requires
        size > 0,
        rs.len() < u64::MAX,
        forall|i: int| 0 <= i < rs.len() ==> (#[trigger] rs[i]).0.len() == size,
        forall|j: int|
            0 <= j < us.len() ==> 1 <= (#[trigger] us[j]).0 <= rs.len() && us[j].1.len() == size,
    ensures
        updates(saves(empty_view(), rs), us).owners == saves(empty_view(), rs).owners,
        ids_of(updates(saves(empty_view(), rs), us).owners, owner) == owned_ids(rs, owner),
        forall|id: u64|
            1 <= id <= rs.len() ==> #[trigger] has_record(updates(saves(empty_view(), rs), us), id),
        forall|id: u64|
            1 <= id <= rs.len() ==> #[trigger] record_at(updates(saves(empty_view(), rs), us), id)
                == latest(rs, us, id),
    decreases us.len(),
{
    law_saves_from_empty(rs, size);
    lemma_owned_ids(rs, size, owner);
    let v0 = saves(empty_view(), rs);
    if us.len() == 0 {
        assert forall|id: u64| 1 <= id <= rs.len() implies #[trigger] has_record(
            updates(v0, us),
            id,
        ) by {
            let i = id - 1;
            assert(has_record(v0, (i + 1) as u64));
        }
        assert forall|id: u64| 1 <= id <= rs.len() implies #[trigger] record_at(
            updates(v0, us),
            id,
        ) == latest(rs, us, id) by {
            let i = id - 1;
            assert(record_at(v0, (i + 1) as u64) == rs[i].0);
        }
    } else {
        let front = us.drop_last();
        assert forall|j: int| 0 <= j < front.len() implies 1 <= (#[trigger] front[j]).0 <= rs.len()
            && front[j].1.len() == size by {
            assert(front[j] == us[j]);
        }
        law_saves_then_updates(rs, front, size, owner);
        let p = updates(v0, front);
        let (uid, rec) = us.last();
        assert(us.last() == us[us.len() - 1]);
        assert(p.record_size == size) by {
            lemma_updates_keep_size(v0, front);
        }
        law_load_after_update(p, uid, rec);
        assert forall|id: u64| 1 <= id <= rs.len() implies #[trigger] has_record(
            updates(v0, us),
            id,
        ) && record_at(updates(v0, us), id) == latest(rs, us, id) by {
            assert(has_record(p, id));
            assert(record_at(p, id) == latest(rs, front, id));
            if id != uid {
                law_update_keeps_others(p, uid, id, rec);
            }
        }
        assert forall|id: u64| 1 <= id <= rs.len() implies #[trigger] record_at(
            updates(v0, us),
            id,
        ) == latest(rs, us, id) by {
            assert(has_record(updates(v0, us), id));
        }
        lemma_updates_keep_size(v0, us);
    }
}

proof fn lemma_updates_keep_size(v: StorageView, us: Seq<(u64, Seq<u8>)>)
    ensures
        updates(v, us).record_size == v.record_size,
        updates(v, us).owners == v.owners,
    decreases us.len(),
{
    if us.len() > 0 {
        lemma_updates_keep_size(v, us.drop_last());
    }
}

} // verus!
