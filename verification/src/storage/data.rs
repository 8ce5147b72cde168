use vstd::prelude::*;

use crate::error::{text, FlameError};

verus! {

/// Where a saved blob sits in the data file: bytes `start..end`.
pub struct Index {
    pub start: u64,
    pub end: u64,
}

/// An append-only data file: each save adds a blob at the end and answers with
/// its place.
pub struct DataStorage {
    path: String,
    data: Vec<u8>,
}

/// The path of the data file `name` under the directory `path`.
pub open spec fn data_file_path(path: Seq<char>, name: Seq<char>) -> Seq<char> {
    path + seq!['/'] + name + seq!['.', 'd', 'a', 't']
}

impl DataStorage {
    /// The bytes of the data file.
    pub closed spec fn contents(&self) -> Seq<u8> {
        self.data@
    }

    pub closed spec fn spec_path(&self) -> Seq<char> {
        self.path@
    }

    /// A storage for the data file `{path}/{name}.dat`, empty.
    pub fn new(path: &str, name: &str) -> (r: Result<Self, FlameError>)
        ensures
            r matches Ok(s) ==> s.contents() == Seq::<u8>::empty() && s.spec_path()
                == data_file_path(path@, name@),
            r is Ok,
    {
        Self::with_contents(path, name, Vec::new())
    }

    /// A storage for the data file `{path}/{name}.dat` that already holds `contents`.
    pub fn with_contents(path: &str, name: &str, contents: Vec<u8>) -> (r: Result<
        Self,
        FlameError,
    >)
        ensures
            r matches Ok(s) ==> s.contents() == contents@ && s.spec_path() == data_file_path(
                path@,
                name@,
            ),
            r is Ok,
    {
        let mut p = path.to_string();
        p.append("/");
        p.append(name);
        p.append(".dat");
        proof {
            reveal_strlit("/");
            reveal_strlit(".dat");
            assert(p@ =~= data_file_path(path@, name@));
        }
        Ok(DataStorage { path: p, data: contents })
    }

    /// The length of the data file.
    pub fn len(&self) -> (r: usize)
        ensures
            r == self.contents().len(),
    {
        self.data.len()
    }

    /// The path of the data file.
    pub fn path(&self) -> (r: &String)
        ensures
            r@ == self.spec_path(),
    {
        &self.path
    }

    /// Appends `data` and returns where it landed.
    pub fn save(&mut self, data: &[u8]) -> (r: Result<Index, FlameError>)
        requires
            old(self).contents().len() + data@.len() <= u64::MAX,
            old(self).contents().len() + data@.len() <= usize::MAX,
        ensures
            final(self).contents() == old(self).contents() + data@,
            final(self).spec_path() == old(self).spec_path(),
            r matches Ok(idx) ==> idx.start == old(self).contents().len() && idx.end == old(
                self,
            ).contents().len() + data@.len(),
            r is Ok,
    {
        let tail = self.data.len();
        let mut k: usize = 0;
        while k < data.len()
            invariant
                k <= data@.len(),
                tail == old(self).contents().len(),
                self.data@ == old(self).contents() + data@.subrange(0, k as int),
                self.path == old(self).path,
            decreases data.len() - k,
        {
            self.data.push(data[k]);
            k = k + 1;
            assert(self.data@ =~= old(self).contents() + data@.subrange(0, k as int));
        }
        assert(data@.subrange(0, data@.len() as int) =~= data@);
        Ok(Index { start: tail as u64, end: (tail + data.len()) as u64 })
    }

    /// The bytes at `index`; an error when the file ends before `index.end`.
    pub fn load(&self, index: &Index) -> (r: Result<Vec<u8>, FlameError>)
        requires
            index.start <= index.end,
        ensures
            r is Ok <==> index.end <= self.contents().len(),
            r matches Ok(v) ==> v@ == self.contents().subrange(
                index.start as int,
                index.end as int,
            ),
            r matches Err(e) ==> e is Internal,
    {
        if index.end > self.data.len() as u64 {
            return Err(FlameError::Internal(text("failed to fill whole buffer")));
        }
        let start = index.start as usize;
        let end = index.end as usize;
        let mut out: Vec<u8> = Vec::new();
        let mut k = start;
        while k < end
            invariant
                start <= k <= end <= self.data.len(),
                start == index.start,
                end == index.end,
                out@ == self.data@.subrange(start as int, k as int),
            decreases end - k,
        {
            out.push(self.data[k]);
            k = k + 1;
            assert(out@ =~= self.data@.subrange(start as int, k as int));
        }
        Ok(out)
    }
}

/// What a save wrote reads back through the index it returned, and the blobs
/// saved before it still read back unchanged.
pub proof fn law_load_after_append(before: Seq<u8>, data: Seq<u8>, earlier: Index)
    requires
        earlier.start <= earlier.end <= before.len(),
    ensures
        (before + data).subrange(before.len() as int, (before.len() + data.len()) as int) == data,
        (before + data).subrange(earlier.start as int, earlier.end as int) == before.subrange(
            earlier.start as int,
            earlier.end as int,
        ),
{
    assert((before + data).subrange(before.len() as int, (before.len() + data.len()) as int)
        =~= data);
    assert((before + data).subrange(earlier.start as int, earlier.end as int) =~= before.subrange(
        earlier.start as int,
        earlier.end as int,
    ));
}

/// The contents after saving each blob of `later`, in order, onto `contents`.
pub open spec fn after_saves(contents: Seq<u8>, later: Seq<Seq<u8>>) -> Seq<u8>
    decreases later.len(),
{
    if later.len() == 0 {
        contents
    } else {
        after_saves(contents, later.drop_last()) + later.last()
    }
}

/// An index keeps reading back the same bytes after any number of later
/// saves: saves only append.
pub proof fn law_index_survives_later_saves(contents: Seq<u8>, later: Seq<Seq<u8>>, index: Index)
    requires
        index.start <= index.end <= contents.len(),
    ensures
        after_saves(contents, later).len() >= contents.len(),
        after_saves(contents, later).subrange(index.start as int, index.end as int)
            == contents.subrange(index.start as int, index.end as int),
    decreases later.len(),
{
    if later.len() > 0 {
        let prev = after_saves(contents, later.drop_last());
        law_index_survives_later_saves(contents, later.drop_last(), index);
        assert((prev + later.last()).subrange(index.start as int, index.end as int)
            =~= prev.subrange(index.start as int, index.end as int));
    }
}

} // verus!
