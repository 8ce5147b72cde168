use vstd::prelude::*;

use crate::cache::endpoint::{spec_uri, CacheEndpoint};
use crate::deps::{is_uuid_v4_text, base64_decoded, decode_base64, new_uuid};
use crate::error::{text, FlameError};
use crate::keyed::{KeySelector, KeyedStore, Snapshot, StoreKey};
use crate::strs::{
    count_char, count_chars, find_char, index_of_from, lemma_index_of_from, spec_starts_with,
    starts_with, str_eq, substring,
};

verus! {

/// What the cache tells of a stored object: where it is served, its key
/// `session/object`, its version and its size.
pub struct ObjectMetadata {
    pub endpoint: String,
    pub key: String,
    pub version: u64,
    pub size: u64,
}

impl View for ObjectMetadata {
    type V = (Seq<char>, Seq<char>, u64, u64);

    open spec fn view(&self) -> Self::V {
        (self.endpoint@, self.key@, self.version, self.size)
    }
}

impl Snapshot for ObjectMetadata {
    fn snapshot(&self) -> (r: Self) {
        ObjectMetadata {
            endpoint: self.endpoint.clone(),
            key: self.key.clone(),
            version: self.version,
            size: self.size,
        }
    }
}

/// The key of object `id` of `session`.
pub open spec fn object_key(session: Seq<char>, id: Seq<char>) -> Seq<char> {
    session + "/"@ + id
}

/// Selects the keys that begin with a prefix.
pub struct PrefixSel(pub String);

impl KeySelector<String> for PrefixSel {
    open spec fn selects(&self, k: Seq<char>) -> bool {
        spec_starts_with(k, self.0@)
    }

    fn select(&self, k: &String) -> (r: bool) {
        starts_with(k.as_str(), self.0.as_str())
    }
}

pub type IndexView = Map<Seq<char>, (Seq<char>, Seq<char>, u64, u64)>;

/// The metadata of an object stored as `key` of `size` bytes by a cache served
/// at `e`: version 0.
pub open spec fn spec_metadata(e: CacheEndpoint, key: Seq<char>, size: u64) -> (
    Seq<char>,
    Seq<char>,
    u64,
    u64,
) {
    (spec_uri(e.scheme@, e.host@, e.port), key, 0u64, size)
}

/// The in-memory index of a cache that keeps objects in files: key to metadata.
pub struct ObjectIndex {
    endpoint: CacheEndpoint,
    objects: KeyedStore<String, ObjectMetadata>,
}

/// The message for a key that is not `session/object`.
pub open spec fn invalid_key_message(key: Seq<char>) -> Seq<char> {
    "Invalid key format: "@ + key
}

impl ObjectIndex {
    pub closed spec fn wf(&self) -> bool {
        self.objects.wf()
    }

    pub closed spec fn served_at(&self) -> CacheEndpoint {
        self.endpoint
    }

    /// The indexed objects, by key.
    pub closed spec fn objects(&self) -> IndexView {
        self.objects@
    }

    /// An empty index of a cache served at `endpoint`.
    pub fn new(endpoint: CacheEndpoint) -> (r: Self)
        ensures
            r.wf(),
            r.served_at() == endpoint,
            r.objects() == IndexView::empty(),
    {
        ObjectIndex { endpoint, objects: KeyedStore::new() }
    }

    /// Where the cache is served.
    pub fn endpoint(&self) -> (r: &CacheEndpoint)
        ensures
            *r == self.served_at(),
    {
        &self.endpoint
    }

    /// The metadata of an object stored as `key` with `size` bytes.
    pub fn create_metadata(&self, key: String, size: u64) -> (r: ObjectMetadata)
        ensures
            r@ == spec_metadata(self.served_at(), key@, size),
    {
        ObjectMetadata { endpoint: self.endpoint.to_uri(), key, version: 0, size }
    }

    /// The id a put uses: the one asked for, else a fresh random UUID (version 4) in hyphenated text.
    pub fn object_id_or_new(id: Option<String>) -> (r: String)
        ensures
            id matches Some(i) ==> r@ == i@,
            id is None ==> is_uuid_v4_text(r@),
    {
        match id {
            Some(i) => i,
            None => new_uuid(),
        }
    }

    /// Indexes object `id` of `session`, stored with `size` bytes.
    pub fn put_with_id(&mut self, session: &str, id: &str, size: u64) -> (r: ObjectMetadata)
        requires
            old(self).wf(),
        ensures
            final(self).wf(),
            final(self).served_at() == old(self).served_at(),
            r@ == spec_metadata(old(self).served_at(), object_key(session@, id@), size),
            final(self).objects() == old(self).objects().insert(object_key(session@, id@), r@),
    {
        let mut key = session.to_string();
        key.append("/");
        key.append(id);
        let metadata = self.create_metadata(key.clone(), size);
        let copy = metadata.snapshot();
        self.objects.insert(key, metadata);
        copy
    }

    /// Indexes an object found stored as `key` with `size` bytes.
    pub fn index_loaded(&mut self, key: &String, size: u64)
        requires
            old(self).wf(),
        ensures
            final(self).wf(),
            final(self).served_at() == old(self).served_at(),
            final(self).objects() == old(self).objects().insert(
                key@,
                spec_metadata(old(self).served_at(), key@, size),
            ),
    {
        let metadata = self.create_metadata(key.clone(), size);
        self.objects.insert(key.clone(), metadata);
    }

    /// Whether `key` is indexed.
    pub fn contains(&self, key: &String) -> (r: bool)
        requires
            self.wf(),
        ensures
            r == self.objects().dom().contains(key@),
    {
        self.objects.get(key).is_some()
    }

    /// Checks that a key has the form `session/object` with exactly one `/`.
    pub fn check_key(key: &str) -> (r: Result<(), FlameError>)
        ensures
            r is Ok <==> count_char(key@, '/') == 1,
            r matches Err(e) ==> (e matches FlameError::InvalidConfig(m) && m@
                == invalid_key_message(key@)),
    {
        if count_chars(key, '/') != 1 {
            proof {
                reveal_strlit("Invalid key format: ");
            }
            let mut m = text("Invalid key format: ");
            m.append(key);
            return Err(FlameError::InvalidConfig(m));
        }
        Ok(())
    }

    /// Indexes the new content of `key` with `size` bytes; the key must be
    /// `session/object`.
    pub fn update(&mut self, key: &String, size: u64) -> (r: Result<ObjectMetadata, FlameError>)
        requires
            old(self).wf(),
        ensures
            final(self).wf(),
            final(self).served_at() == old(self).served_at(),
            r is Ok <==> count_char(key@, '/') == 1,
            r matches Err(e) ==> final(self).objects() == old(self).objects(),
            r matches Err(e) ==> (e matches FlameError::InvalidConfig(m) && m@
                == invalid_key_message(key@)),
            r matches Ok(m) ==> m@ == spec_metadata(old(self).served_at(), key@, size)
                && final(self).objects() == old(self).objects().insert(key@, m@),
    {
        Self::check_key(key.as_str())?;
        let metadata = self.create_metadata(key.clone(), size);
        let copy = metadata.snapshot();
        self.objects.insert(key.clone(), metadata);
        Ok(copy)
    }

    /// Forgets every object whose key begins with `session/`.
    pub fn delete(&mut self, session: &str)
        requires
            old(self).wf(),
        ensures
            final(self).wf(),
            final(self).served_at() == old(self).served_at(),
            final(self).objects() == old(self).objects().restrict(
                old(self).objects().dom().filter(
                    |k: Seq<char>| !spec_starts_with(k, session@ + "/"@),
                ),
            ),
    {
        let mut prefix = session.to_string();
        prefix.append("/");
        self.objects.remove_selected(&PrefixSel(prefix));
    }

    /// The metadata of every indexed object, one per key, in no set order.
    pub fn list_all(&self) -> (r: Vec<ObjectMetadata>)
        requires
            self.wf(),
        ensures
            r.len() == self.objects().dom().len(),
            forall|i: int| 0 <= i < r.len() ==> #[trigger] self.objects().contains_value(r[i]@),
            forall|k: Seq<char>|
                self.objects().dom().contains(k) ==> exists|i: int|
                    0 <= i < r.len() && #[trigger] r[i]@ == self.objects()[k],
    {
        self.objects.values()
    }
}

/// What a flight descriptor path names, when the session is not known yet:
/// `session/object` gives both, a path without `/` gives the session alone, and
/// a path with more than one `/` gives nothing.
pub open spec fn spec_path_ids(p: Seq<char>) -> (Option<Seq<char>>, Option<Seq<char>>) {
    let i = index_of_from(p, '/', 0);
    if i == p.len() {
        (Some(p), None)
    } else if count_char(p, '/') == 1 {
        (Some(p.subrange(0, i)), Some(p.subrange(i + 1, p.len() as int)))
    } else {
        (None, None)
    }
}

pub open spec fn opt_view(o: Option<String>) -> Option<Seq<char>> {
    match o {
        Some(s) => Some(s@),
        None => None,
    }
}

/// Takes the session and object ids from the first path of a flight descriptor,
/// unless the session is already known.
pub fn extract_session_and_object_id(
    path: Option<&str>,
    session_id: &mut Option<String>,
    object_id: &mut Option<String>,
)
    ensures
        (*old(session_id)) is Some ==> *final(session_id) == *old(session_id) && *final(object_id)
            == *old(object_id),
        (*old(session_id)) is None && path is None ==> *final(session_id) == *old(session_id)
            && *final(object_id) == *old(object_id),
        (*old(session_id)) is None && path is Some ==> ({
            let ids = spec_path_ids(path->0@);
            &&& ids.0 is Some ==> opt_view(*final(session_id)) == ids.0
            &&& ids.0 is None ==> *final(session_id) == *old(session_id)
            &&& ids.1 is Some ==> opt_view(*final(object_id)) == ids.1
            &&& ids.1 is None ==> *final(object_id) == *old(object_id)
        }),
{
    if session_id.is_some() {
        return;
    }
    if let Some(p) = path {
        let n = p.unicode_len();
        let i = find_char(p, '/', 0);
        proof {
            lemma_index_of_from(p@, '/', 0);
        }
        if i < n {
            if count_chars(p, '/') == 1 {
                *session_id = Some(substring(p, 0, i));
                *object_id = Some(substring(p, i + 1, n));
            }
        } else {
            *session_id = Some(p.to_string());
        }
    }
}

/// The kinds of actions the cache serves.
#[derive(Debug, Clone, Copy, PartialEq, Eq, Structural)]
pub enum ActionKind {
    Put,
    Update,
    Delete,
}

/// The action an action type names: `PUT`, `UPDATE` or `DELETE`.
pub fn action_kind(t: &str) -> (r: Option<ActionKind>)
    ensures
        r == (if t@ == "PUT"@ {
            Some(ActionKind::Put)
        } else if t@ == "UPDATE"@ {
            Some(ActionKind::Update)
        } else if t@ == "DELETE"@ {
            Some(ActionKind::Delete)
        } else {
            None
        }),
{
    if crate::strs::str_eq(t, "PUT") {
        Some(ActionKind::Put)
    } else if crate::strs::str_eq(t, "UPDATE") {
        Some(ActionKind::Update)
    } else if crate::strs::str_eq(t, "DELETE") {
        Some(ActionKind::Delete)
    } else {
        None
    }
}

/// The body of a put action, `session:base64`: exactly one `:`, then data in
/// standard base64. A malformed body is an invalid argument.
pub fn parse_put_action(body: &str) -> (r: Result<(String, Vec<u8>), FlameError>)
    ensures
        count_char(body@, ':') != 1 ==> (r matches Err(FlameError::InvalidConfig(m)) && m@
            == "Invalid PUT action format"@),
        count_char(body@, ':') == 1 ==> ({
            let i = index_of_from(body@, ':', 0);
            let data = body@.subrange(i + 1, body@.len() as int);
            &&& base64_decoded(data) is None ==> (r matches Err(e) && e is InvalidConfig)
            &&& base64_decoded(data) matches Some(d) ==> (r matches Ok((s, v)) && s@
                == body@.subrange(0, i) && v@ == d)
        }),
{
    if count_chars(body, ':') != 1 {
        proof {
            reveal_strlit("Invalid PUT action format");
        }
        return Err(FlameError::InvalidConfig(text("Invalid PUT action format")));
    }
    proof {
        lemma_index_of_from(body@, ':', 0);
        if index_of_from(body@, ':', 0) == body@.len() {
            lemma_count_zero(body@, ':');
        }
    }
    split_key_and_data(body)
}

/// The body of an update action, `key:base64`: the key ends at the first `:`,
/// which must be there, and the rest is data in standard base64.
pub fn parse_update_action(body: &str) -> (r: Result<(String, Vec<u8>), FlameError>)
    ensures
        index_of_from(body@, ':', 0) == body@.len() ==> (r matches Err(FlameError::InvalidConfig(m))
            && m@ == "Invalid UPDATE action format"@),
        index_of_from(body@, ':', 0) < body@.len() ==> ({
            let i = index_of_from(body@, ':', 0);
            let data = body@.subrange(i + 1, body@.len() as int);
            &&& base64_decoded(data) is None ==> (r matches Err(e) && e is InvalidConfig)
            &&& base64_decoded(data) matches Some(d) ==> (r matches Ok((s, v)) && s@
                == body@.subrange(0, i) && v@ == d)
        }),
{
    proof {
        lemma_index_of_from(body@, ':', 0);
    }
    if find_char(body, ':', 0) == body.unicode_len() {
        proof {
            reveal_strlit("Invalid UPDATE action format");
        }
        return Err(FlameError::InvalidConfig(text("Invalid UPDATE action format")));
    }
    split_key_and_data(body)
}

proof fn lemma_count_zero(s: Seq<char>, c: char)
    requires
        index_of_from(s, c, 0) == s.len(),
    ensures
        count_char(s, c) == 0,
    decreases s.len(),
{
    lemma_index_of_from(s, c, 0);
    if s.len() > 0 {
        let p = s.drop_last();
        assert forall|k: int| 0 <= k < p.len() implies p[k] != c by {
            assert(p[k] == s[k]);
        }
        lemma_index_of_absent(p, c);
        lemma_count_zero(p, c);
    }
}

proof fn lemma_index_of_absent(s: Seq<char>, c: char)
    requires
        forall|k: int| 0 <= k < s.len() ==> s[k] != c,
    ensures
        index_of_from(s, c, 0) == s.len(),
{
    lemma_index_of_absent_from(s, c, 0);
}

proof fn lemma_index_of_absent_from(s: Seq<char>, c: char, from: int)
    requires
        0 <= from <= s.len(),
        forall|k: int| from <= k < s.len() ==> s[k] != c,
    ensures
        index_of_from(s, c, from) == s.len(),
    decreases s.len() - from,
{
    if from < s.len() {
        lemma_index_of_absent_from(s, c, from + 1);
    }
}

fn split_key_and_data(body: &str) -> (r: Result<(String, Vec<u8>), FlameError>)
    requires
        index_of_from(body@, ':', 0) < body@.len(),
    ensures
        ({
            let i = index_of_from(body@, ':', 0);
            let data = body@.subrange(i + 1, body@.len() as int);
            &&& base64_decoded(data) is None ==> (r matches Err(e) && e is InvalidConfig)
            &&& base64_decoded(data) matches Some(d) ==> (r matches Ok((s, v)) && s@
                == body@.subrange(0, i) && v@ == d)
        }),
{
    proof {
        lemma_index_of_from(body@, ':', 0);
    }
    let n = body.unicode_len();
    let i = find_char(body, ':', 0);
    let key = substring(body, 0, i);
    let data = body.substring_char(i + 1, n);
    match decode_base64(data) {
        Some(d) => Ok((key, d)),
        None => Err(FlameError::InvalidConfig(text("Invalid base64"))),
    }
}

/// The key a flight descriptor path names: its parts joined with `/`; an empty
/// path is an invalid argument.
pub open spec fn join_with_slash(parts: Seq<Seq<char>>) -> Seq<char>
    decreases parts.len(),
{
    if parts.len() == 0 {
        Seq::empty()
    } else if parts.len() == 1 {
        parts[0]
    } else {
        join_with_slash(parts.drop_last()) + "/"@ + parts.last()
    }
}

pub fn descriptor_key(path: &Vec<String>) -> (r: Result<String, FlameError>)
    ensures
        path@.len() == 0 ==> (r matches Err(FlameError::InvalidConfig(m)) && m@
            == "Empty descriptor path"@),
        path@.len() > 0 ==> (r matches Ok(k) && k@ == join_with_slash(
            path@.map_values(|s: String| s@),
        )),
{
    if path.len() == 0 {
        proof {
            reveal_strlit("Empty descriptor path");
        }
        return Err(FlameError::InvalidConfig(text("Empty descriptor path")));
    }
    let ghost parts = path@.map_values(|s: String| s@);
    let mut key = path[0].clone();
    let mut i: usize = 1;
    assert(parts.subrange(0, 1).len() == 1);
    while i < path.len()
        invariant
            1 <= i <= path.len(),
            parts == path@.map_values(|s: String| s@),
            key@ == join_with_slash(parts.subrange(0, i as int)),
        decreases path.len() - i,
    {
        key.append("/");
        key.append(path[i].as_str());
        proof {
            let sub = parts.subrange(0, i + 1);
            assert(sub.drop_last() =~= parts.subrange(0, i as int));
            assert(sub.last() == path@[i as int]@);
        }
        i = i + 1;
    }
    assert(parts.subrange(0, path.len() as int) =~= parts);
    Ok(key)
}

/// The position of the last `.` in a file name, if any.
pub open spec fn last_dot(name: Seq<char>) -> Option<int>
    decreases name.len(),
{
    if name.len() == 0 {
        None
    } else if name.last() == '.' {
        Some(name.len() - 1)
    } else {
        last_dot(name.drop_last())
    }
}

/// The key of an object file found in a session's directory: the file
/// name without its `.arrow` extension, under the session; a file with any
/// other extension, or none, holds no object. A name that only starts with
/// its dot has no extension.
pub open spec fn spec_object_file_key(session: Seq<char>, file: Seq<char>) -> Option<Seq<char>> {
    match last_dot(file) {
        Some(i) => if i > 0 && file.subrange(i + 1, file.len() as int) == "arrow"@ {
            Some(object_key(session, file.subrange(0, i)))
        } else {
            None
        },
        None => None,
    }
}

/// The key of the object stored in the file `file` of the directory of
/// `session`, if it is an object file.
pub fn object_file_key(session: &str, file: &str) -> (r: Option<String>)
    ensures
        match spec_object_file_key(session@, file@) {
            Some(k) => r matches Some(s) && s@ == k,
            None => r is None,
        },
{
    proof {
        reveal_strlit("arrow");
        reveal_strlit("/");
    }
    let n = file.unicode_len();
    let mut j: usize = n;
    assert(file@.subrange(0, n as int) =~= file@);
    while j > 0 && file.get_char(j - 1) != '.'
        invariant
            n == file@.len(),
            j <= n,
            last_dot(file@) == last_dot(file@.subrange(0, j as int)),
        decreases j,
    {
        proof {
            assert(file@.subrange(0, j as int).drop_last() =~= file@.subrange(0, j - 1));
        }
        j = j - 1;
    }
    proof {
        if j > 0 {
            assert(file@.subrange(0, j as int).last() == file@[j - 1]);
        } else {
            assert(file@.subrange(0, 0) =~= Seq::<char>::empty());
        }
    }
    if j <= 1 {
        return None;
    }
    let ext = substring(file, j, n);
    if !str_eq(ext.as_str(), "arrow") {
        return None;
    }
    let stem = substring(file, 0, j - 1);
    let mut key = session.to_string();
    key.append("/");
    key.append(stem.as_str());
    Some(key)
}

/// The index left after deleting `session`.
pub open spec fn after_delete(m: IndexView, session: Seq<char>) -> IndexView {
    m.restrict(m.dom().filter(|k: Seq<char>| !spec_starts_with(k, session + "/"@)))
}

/// Deleting a session drops every object of it and keeps the objects of any
/// other session, when session names hold no `/`.
pub proof fn law_delete_keeps_other_sessions(
    m: IndexView,
    session: Seq<char>,
    other: Seq<char>,
    id: Seq<char>,
)
    requires
        !session.contains('/'),
        !other.contains('/'),
        other != session,
    ensures
        !after_delete(m, session).dom().contains(object_key(session, id)),
        m.dom().contains(object_key(other, id)) ==> after_delete(m, session).dom().contains(
            object_key(other, id),
        ) && after_delete(m, session)[object_key(other, id)] == m[object_key(other, id)],
{
    reveal_strlit("/");
    let p = session + "/"@;
    assert(p.len() == session.len() + 1);
    let k = object_key(session, id);
    assert(k.subrange(0, p.len() as int) =~= p);
    let ko = object_key(other, id);
    if spec_starts_with(ko, p) {
        assert(forall|i: int| 0 <= i < p.len() ==> ko[i] == #[trigger] p[i]) by {
            assert forall|i: int| 0 <= i < p.len() implies ko[i] == #[trigger] p[i] by {
                assert(ko.subrange(0, p.len() as int)[i] == p[i]);
            }
        }
        if session.len() < other.len() {
            assert(ko[session.len() as int] == other[session.len() as int]);
            assert(p[session.len() as int] == '/');
            assert(other.contains('/'));
        } else if session.len() == other.len() {
            assert forall|i: int| 0 <= i < session.len() implies session[i] == other[i] by {
                assert(ko[i] == other[i]);
                assert(p[i] == session[i]);
            }
            assert(session =~= other);
        } else {
            assert(ko[other.len() as int] == '/');
            assert(p[other.len() as int] == session[other.len() as int]);
            assert(session.contains('/'));
        }
    }
    if m.dom().contains(ko) {
        assert(m.dom().filter(|k: Seq<char>| !spec_starts_with(k, p)).contains(ko));
    }
}

} // verus!
