use vstd::prelude::*;

use crate::cache::endpoint::{
    host_by_name, iface_names, invalid_endpoint_message, pick_error, port_or, spec_host_by_name,
    spec_uri, CacheEndpoint, InterfaceAddrs, DEFAULT_HTTP_CACHE_PORT,
};
use crate::deps::url_parts;
use crate::error::{session_not_found, session_not_found_message, text, FlameError};
use crate::keyed::{FirstIs, KeyView, KeyedStore, Snapshot};

verus! {

/// An object as the HTTP cache stores it.
pub struct Object {
    pub uid: String,
    pub session_id: String,
    pub version: u64,
    pub data: Vec<u8>,
}

impl View for Object {
    type V = (Seq<char>, Seq<char>, u64, Seq<u8>);

    open spec fn view(&self) -> Self::V {
        (self.uid@, self.session_id@, self.version, self.data@)
    }
}

impl Snapshot for Object {
    fn snapshot(&self) -> (r: Self) {
        Object {
            uid: self.uid.clone(),
            session_id: self.session_id.clone(),
            version: self.version,
            data: self.data.clone(),
        }
    }
}

/// What a put answers: where the object is served, its version and the size of
/// the request body that carried it.
pub struct ObjectInfo {
    pub endpoint: String,
    pub version: u64,
    pub size: usize,
}

/// Objects of sessions served over HTTP.
pub struct ObjectCache {
    endpoint: CacheEndpoint,
    objects: KeyedStore<(String, String), Object>,
}

pub type ObjectsView = Map<KeyView, (Seq<char>, Seq<char>, u64, Seq<u8>)>;

/// Whether some object of `session` is kept.
pub open spec fn has_session(m: ObjectsView, session: Seq<char>) -> bool {
    exists|k: KeyView| #[trigger] m.dom().contains(k) && k.0 == session
}

impl ObjectCache {
    pub closed spec fn wf(&self) -> bool {
        self.objects.wf()
    }

    pub closed spec fn served_at(&self) -> CacheEndpoint {
        self.endpoint
    }

    /// The objects, by `(session, uid)`.
    pub closed spec fn objects(&self) -> ObjectsView {
        self.objects@
    }

    /// Where the cache is served.
    pub fn endpoint(&self) -> (r: &CacheEndpoint)
        ensures
            *r == self.served_at(),
    {
        &self.endpoint
    }

    /// An empty cache served at `endpoint`.
    pub fn new(endpoint: CacheEndpoint) -> (r: Self)
        ensures
            r.wf(),
            r.served_at() == endpoint,
            r.objects() == ObjectsView::empty(),
    {
        ObjectCache { endpoint, objects: KeyedStore::new() }
    }

    /// An empty cache for the configured endpoint, served on the first IPv4
    /// address of the interface named `network_interface`.
    pub fn from_config(endpoint: &str, network_interface: &str, ifaces: &Vec<InterfaceAddrs>) -> (r:
        Result<Self, FlameError>)
        ensures
            url_parts(endpoint@) is Err ==> (r matches Err(FlameError::InvalidConfig(m)) && m@
                == invalid_endpoint_message(endpoint@)),
            url_parts(endpoint@) is Ok && spec_host_by_name(network_interface@, ifaces@) is None
                ==> (r matches Err(FlameError::InvalidConfig(m)) && m@ == pick_error(
                iface_names(ifaces@),
                ifaces@,
                |n: Seq<char>| n == network_interface@,
                network_interface@,
            )),
            r matches Ok(c) ==> c.wf() && c.objects() == ObjectsView::empty() && Some(
                c.served_at().host@,
            ) == spec_host_by_name(network_interface@, ifaces@) && match url_parts(endpoint@) {
                Ok((scheme, _, port, _)) => c.served_at().scheme@ == scheme
                    && c.served_at().port == port_or(port, DEFAULT_HTTP_CACHE_PORT),
                Err(_) => false,
            },
    {
        let mut ep = CacheEndpoint::from_http_endpoint(endpoint)?;
        ep.host = host_by_name(network_interface, ifaces)?;
        Ok(Self::new(ep))
    }

    /// The object `uid` of `session`, if kept.
    pub fn get(&self, session: &String, uid: &String) -> (r: Result<Option<Object>, FlameError>)
        requires
            self.wf(),
        ensures
            r matches Ok(o) && (o is Some <==> self.objects().dom().contains((session@, uid@))),
            r matches Ok(Some(o)) ==> o@ == self.objects()[(session@, uid@)],
    {
        match self.objects.get(&(session.clone(), uid.clone())) {
            Some(o) => Ok(Some(o.snapshot())),
            None => Ok(None),
        }
    }

    /// Keeps `object` under its session and uid, replacing what was there.
    pub fn put(&mut self, object: Object) -> (r: Result<(), FlameError>)
        requires
            old(self).wf(),
        ensures
            final(self).wf(),
            final(self).served_at() == old(self).served_at(),
            final(self).objects() == old(self).objects().insert(
                (object.session_id@, object.uid@),
                object@,
            ),
            r is Ok,
    {
        let key = (object.session_id.clone(), object.uid.clone());
        self.objects.insert(key, object);
        Ok(())
    }

    /// Drops the objects of `session`; not found when it has none.
    pub fn delete(&mut self, session: &String) -> (r: Result<(), FlameError>)
        requires
            old(self).wf(),
        ensures
            final(self).wf(),
            final(self).served_at() == old(self).served_at(),
            r is Ok <==> has_session(old(self).objects(), session@),
            r matches Err(e) ==> final(self).objects() == old(self).objects(),
            r matches Err(e) ==> (e matches FlameError::NotFound(m) && m@
                == session_not_found_message(session@)),
            r is Ok ==> final(self).objects() == old(self).objects().restrict(
                old(self).objects().dom().filter(|k: KeyView| k.0 != session@),
            ),
    {
        let sel = FirstIs(session.clone());
        if !self.objects.any_selected(&sel) {
            return Err(session_not_found(session.as_str()));
        }
        self.objects.remove_selected(&sel);
        Ok(())
    }

    /// The answer to a put of `object` carried by a body of `body_len` bytes:
    /// `scheme://host:port/objects/<session>/<uid>`, its version and that size.
    pub fn object_info(&self, object: &Object, body_len: usize) -> (r: ObjectInfo)
        ensures
            r.endpoint@ == spec_uri(
                self.served_at().scheme@,
                self.served_at().host@,
                self.served_at().port,
            ) + "/objects/"@ + object.session_id@ + "/"@ + object.uid@,
            r.version == object.version,
            r.size == body_len,
    {
        ObjectInfo {
            endpoint: self.endpoint.object_endpoint(object.session_id.as_str(), object.uid.as_str()),
            version: object.version,
            size: body_len,
        }
    }
}

/// An object put is got back as it was put, under its session and id, and
/// its session then has an object.
pub proof fn law_get_after_put(
    m: ObjectsView,
    o: (Seq<char>, Seq<char>, u64, Seq<u8>),
)
    ensures
        m.insert((o.1, o.0), o).dom().contains((o.1, o.0)),
        m.insert((o.1, o.0), o)[(o.1, o.0)] == o,
        has_session(m.insert((o.1, o.0), o), o.1),
{
    assert(m.insert((o.1, o.0), o).dom().contains((o.1, o.0)));
}

/// After a session is deleted none of its objects is left, and the objects
/// of the other sessions stay as they were.
pub proof fn law_delete_removes_session(m: ObjectsView, session: Seq<char>, other: KeyView)
    requires
        other.0 != session,
    ensures
        !has_session(m.restrict(m.dom().filter(|k: KeyView| k.0 != session)), session),
        m.dom().contains(other) ==> m.restrict(m.dom().filter(|k: KeyView| k.0 != session)).dom().contains(
            other,
        ) && m.restrict(m.dom().filter(|k: KeyView| k.0 != session))[other] == m[other],
{
    let n = m.restrict(m.dom().filter(|k: KeyView| k.0 != session));
    if has_session(n, session) {
        let k = choose|k: KeyView| #[trigger] n.dom().contains(k) && k.0 == session;
        assert(m.dom().filter(|k: KeyView| k.0 != session).contains(k));
    }
    if m.dom().contains(other) {
        assert(m.dom().filter(|k: KeyView| k.0 != session).contains(other));
    }
}

} // verus!
