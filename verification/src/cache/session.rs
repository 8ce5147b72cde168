use vstd::prelude::*;

use crate::cache::endpoint::{spec_uri, CacheEndpoint};
use crate::deps::{is_uuid_v4_text, new_uuid};
use crate::error::{
    framed, object_not_found, object_not_found_message, session_not_found,
    session_not_found_message, FlameError,
};
use crate::keyed::{FirstIs, KeyView, KeyedStore, Snapshot};

verus! {

/// An object held in memory for a session: its version and its bytes.
pub struct Object {
    pub version: u64,
    pub data: Vec<u8>,
}

impl View for Object {
    type V = (u64, Seq<u8>);

    open spec fn view(&self) -> (u64, Seq<u8>) {
        (self.version, self.data@)
    }
}

impl Snapshot for Object {
    fn snapshot(&self) -> (r: Self) {
        Object { version: self.version, data: self.data.clone() }
    }
}

/// Where an object can be fetched, its version and its size.
pub struct ObjectMetadata {
    pub endpoint: String,
    pub version: u64,
    pub size: u64,
}

/// Objects kept in memory per session, each under an id within its session.
pub struct ObjectCache {
    endpoint: CacheEndpoint,
    objects: KeyedStore<(String, String), Object>,
}

/// The endpoint of object `id` of `session`.
pub open spec fn spec_object_endpoint(e: CacheEndpoint, session: Seq<char>, id: Seq<char>) -> Seq<
    char,
> {
    spec_uri(e.scheme@, e.host@, e.port) + "/objects/"@ + session + "/"@ + id
}

/// The message for an update older than the stored object.
pub open spec fn version_old_message(id: Seq<char>) -> Seq<char> {
    "object <"@ + id + "> version is old"@
}

/// Whether some object is kept for `session`.
pub open spec fn has_session(m: Map<KeyView, (u64, Seq<u8>)>, session: Seq<char>) -> bool {
    exists|k: KeyView| #[trigger] m.dom().contains(k) && k.0 == session
}

impl ObjectCache {
    pub closed spec fn wf(&self) -> bool {
        self.objects.wf()
    }

    /// Where the cache is served.
    pub closed spec fn served_at(&self) -> CacheEndpoint {
        self.endpoint
    }

    /// Where the cache is served.
    pub fn endpoint(&self) -> (r: &CacheEndpoint)
        ensures
            *r == self.served_at(),
    {
        &self.endpoint
    }

    /// The objects, by `(session, id)`.
    pub closed spec fn objects(&self) -> Map<KeyView, (u64, Seq<u8>)> {
        self.objects@
    }

    /// An empty cache served at `endpoint`.
    pub fn new(endpoint: CacheEndpoint) -> (r: Self)
        ensures
            r.wf(),
            r.objects() == Map::<KeyView, (u64, Seq<u8>)>::empty(),
            r.served_at() == endpoint,
    {
        ObjectCache { endpoint, objects: KeyedStore::new() }
    }

    /// Stores `data` as version 1 of object `id` in `session`.
    pub fn put_with_id(&mut self, session: String, id: String, data: Vec<u8>) -> (r: Result<
        ObjectMetadata,
        FlameError,
    >)
        requires
            old(self).wf(),
        ensures
            final(self).wf(),
            final(self).served_at() == old(self).served_at(),
            final(self).objects() == old(self).objects().insert((session@, id@), (1u64, data@)),
            r matches Ok(m) ==> m.version == 1 && m.size == data@.len() && m.endpoint@
                == spec_object_endpoint(old(self).served_at(), session@, id@),
            r is Ok,
    {
        let endpoint = self.endpoint.object_endpoint(session.as_str(), id.as_str());
        let size = data.len() as u64;
        self.objects.insert((session, id), Object { version: 1, data });
        Ok(ObjectMetadata { endpoint, version: 1, size })
    }

    /// Stores `data` as version 1 of a new object of `session`, under a fresh
    /// random UUID (version 4) in hyphenated text.
    pub fn put(&mut self, session: String, data: Vec<u8>) -> (r: Result<
        ObjectMetadata,
        FlameError,
    >)
        requires
            old(self).wf(),
        ensures
            final(self).wf(),
            final(self).served_at() == old(self).served_at(),
            exists|id: Seq<char>|
                is_uuid_v4_text(id) && #[trigger] final(self).objects() == old(self).objects().insert(
                    (session@, id),
                    (1u64, data@),
                ) && (r matches Ok(m) && m.version == 1 && m.size == data@.len() && m.endpoint@
                    == spec_object_endpoint(old(self).served_at(), session@, id)),
    {
        let id = new_uuid();
        let ghost idv = id@;
        let r = self.put_with_id(session, id, data);
        assert(final(self).objects() == old(self).objects().insert((session@, idv), (1u64, data@)));
        r
    }

    /// The object `id` of `session`; not found when the session has no object
    /// or not this one.
    pub fn get(&self, session: &String, id: &String) -> (r: Result<Object, FlameError>)
        requires
            self.wf(),
        ensures
            !has_session(self.objects(), session@) ==> (r matches Err(FlameError::NotFound(m))
                && m@ == session_not_found_message(session@)),
            has_session(self.objects(), session@) && !self.objects().dom().contains(
                (session@, id@),
            ) ==> (r matches Err(FlameError::NotFound(m)) && m@ == object_not_found_message(id@)),
            self.objects().dom().contains((session@, id@)) ==> (r matches Ok(o) && o@
                == self.objects()[(session@, id@)]),
    {
        if !self.objects.any_selected(&FirstIs(session.clone())) {
            return Err(session_not_found(session.as_str()));
        }
        match self.objects.get(&(session.clone(), id.clone())) {
            Some(o) => Ok(o.snapshot()),
            None => Err(object_not_found(id.as_str())),
        }
    }

    /// Replaces object `id` of `session` with the new bytes as the next version.
    /// The session and the object must exist, and the caller's version must not
    /// be older than the stored one.
    pub fn update(&mut self, session: &String, id: &String, new_object: Object) -> (r: Result<
        ObjectMetadata,
        FlameError,
    >)
        requires
            old(self).wf(),
            old(self).objects().dom().contains((session@, id@)) ==> old(self).objects()[(
            session@,
            id@,
            )].0 < u64::MAX,
        ensures
            final(self).wf(),
            final(self).served_at() == old(self).served_at(),
            !has_session(old(self).objects(), session@) ==> (r matches Err(FlameError::NotFound(m))
                && m@ == session_not_found_message(session@)),
            has_session(old(self).objects(), session@) && !old(self).objects().dom().contains(
                (session@, id@),
            ) ==> (r matches Err(FlameError::NotFound(m)) && m@ == object_not_found_message(id@)),
            old(self).objects().dom().contains((session@, id@)) && old(self).objects()[(
            session@,
            id@,
            )].0 > new_object.version ==> (r matches Err(FlameError::VersionMismatch(m)) && m@
                == version_old_message(id@)),
            r is Err ==> final(self).objects() == old(self).objects(),
            old(self).objects().dom().contains((session@, id@)) && old(self).objects()[(
            session@,
            id@,
            )].0 <= new_object.version ==> ({
                let v = (old(self).objects()[(session@, id@)].0 + 1) as u64;
                &&& final(self).objects() == old(self).objects().insert(
                    (session@, id@),
                    (v, new_object.data@),
                )
                &&& r matches Ok(m) && m.version == v && m.size == new_object.data@.len()
                    && m.endpoint@ == spec_object_endpoint(old(self).served_at(), session@, id@)
            }),
    {
        if !self.objects.any_selected(&FirstIs(session.clone())) {
            return Err(session_not_found(session.as_str()));
        }
        let old_version = match self.objects.get(&(session.clone(), id.clone())) {
            Some(o) => o.version,
            None => {
                return Err(object_not_found(id.as_str()));
            },
        };
        if old_version > new_object.version {
            proof {
                reveal_strlit("object <");
                reveal_strlit("> version is old");
            }
            return Err(FlameError::VersionMismatch(framed("object <", id.as_str(), "> version is old")));
        }
        let new_version = old_version + 1;
        let size = new_object.data.len() as u64;
        self.objects.insert(
            (session.clone(), id.clone()),
            Object { version: new_version, data: new_object.data },
        );
        let endpoint = self.endpoint.object_endpoint(session.as_str(), id.as_str());
        Ok(ObjectMetadata { endpoint, version: new_version, size })
    }

    /// Drops every object of `session`; not found when it has none.
    pub fn delete(&mut self, session: &String) -> (r: Result<(), FlameError>)
        requires
            old(self).wf(),
        ensures
            final(self).wf(),
            final(self).served_at() == old(self).served_at(),
            r is Ok <==> has_session(old(self).objects(), session@),
            r matches Err(e) ==> final(self).objects() == old(self).objects(),
            r matches Err(e) ==> (e matches FlameError::NotFound(m) && m@
                == session_not_found_message(session@)),
            r is Ok ==> final(self).objects() == old(self).objects().restrict(
                old(self).objects().dom().filter(|k: KeyView| k.0 != session@),
            ),
    {
        if !self.objects.any_selected(&FirstIs(session.clone())) {
            return Err(session_not_found(session.as_str()));
        }
        self.objects.remove_selected(&FirstIs(session.clone()));
        Ok(())
    }
}

/// A put is seen by the next get of the same object: version 1 with the bytes put.
pub proof fn law_get_after_put(
    m: Map<KeyView, (u64, Seq<u8>)>,
    session: Seq<char>,
    id: Seq<char>,
    data: Seq<u8>,
)
    ensures
        has_session(m.insert((session, id), (1u64, data)), session),
        m.insert((session, id), (1u64, data)).dom().contains((session, id)),
        m.insert((session, id), (1u64, data))[(session, id)] == (1u64, data),
{
    let n = m.insert((session, id), (1u64, data));
    assert(n.dom().contains((session, id)));
}

/// After a delete, no object of the session is left and the other sessions keep
/// theirs.
pub proof fn law_delete_removes_session(
    m: Map<KeyView, (u64, Seq<u8>)>,
    session: Seq<char>,
    other: KeyView,
)
    requires
        other.0 != session,
    ensures
        !has_session(m.restrict(m.dom().filter(|k: KeyView| k.0 != session)), session),
        m.dom().contains(other) ==> m.restrict(m.dom().filter(|k: KeyView| k.0 != session)).dom().contains(
            other,
        ) && m.restrict(m.dom().filter(|k: KeyView| k.0 != session))[other] == m[other],
{
    let n = m.restrict(m.dom().filter(|k: KeyView| k.0 != session));
    if has_session(n, session) {
        let k = choose|k: KeyView| #[trigger] n.dom().contains(k) && k.0 == session;
        assert(m.dom().filter(|k: KeyView| k.0 != session).contains(k));
    }
    if m.dom().contains(other) {
        assert(m.dom().filter(|k: KeyView| k.0 != session).contains(other));
    }
}

} // verus!
