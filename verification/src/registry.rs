//! The registry store: the cameras that the server knows, each under its id.

use crate::error::RegistryError;
use crate::ident::{generate_camera_id, is_camera_id};
use crate::index::{
    absorb, distinct_ids, has_id, lemma_absorb, lemma_record_map_domain, lemma_record_map_entry,
    lemma_record_map_push, lemma_record_map_upsert, lemma_upsert_distinct, lookup, overwrite,
    record_map, upsert,
};
use crate::model::{
    basic_of, camera_models, distinct_stream_ids, find_stream, is_only_stream, lemma_find_stream,
    no_stream_has, recast_or, BasicCameraInfo, Camera, CameraModel, Stream, StreamModel,
};
use crate::recast::{derive_recast_url, derived_recast_url};
use vstd::prelude::*;

verus! {

/// `stream` as the registry stores it for camera `camera_id`: a stream that
/// names no recast URL gets the one derived from `base_url`.
pub open spec fn with_recast(stream: StreamModel, base_url: Seq<char>, camera_id: Seq<char>)
    -> StreamModel {
    recast_or(stream, derived_recast_url(base_url, camera_id, stream.id))
}

/// The record that the registry stores when `candidate` is created under `id`:
/// the candidate's own id is dropped, and each stream gets its recast URL.
pub open spec fn registered(candidate: CameraModel, id: Seq<char>, base_url: Seq<char>)
    -> CameraModel {
    CameraModel {
        id,
        name: candidate.name,
        streams: Seq::new(
            candidate.streams.len(),
            |i: int| with_recast(candidate.streams[i], base_url, id),
        ),
    }
}

/// The record that a create stores keeps the stream ids of its candidate, in
/// their order: where the candidate's do not repeat, neither do the record's.
pub proof fn lemma_registered_stream_ids(
    candidate: CameraModel,
    id: Seq<char>,
    base_url: Seq<char>,
)
    ensures
        registered(candidate, id, base_url).streams.len() == candidate.streams.len(),
        forall|i: int|
            0 <= i < candidate.streams.len() ==> (#[trigger] registered(
                candidate,
                id,
                base_url,
            ).streams[i]).id == candidate.streams[i].id,
        distinct_stream_ids(candidate.streams) ==> distinct_stream_ids(
            registered(candidate, id, base_url).streams,
        ),
{
    let stored = registered(candidate, id, base_url).streams;
    if distinct_stream_ids(candidate.streams) {
        assert forall|i: int, j: int| 0 <= i < j < stored.len() implies (#[trigger] stored[i]).id
            != (#[trigger] stored[j]).id by {
            assert(candidate.streams[i].id != candidate.streams[j].id);
        }
    }
}

/// The stream `stream_id` of the camera stored under `camera_id`: absent where
/// the camera is, and where the camera has no such stream.
pub open spec fn lookup_stream(
    registry: Map<Seq<char>, CameraModel>,
    camera_id: Seq<char>,
    stream_id: u64,
) -> Option<StreamModel> {
    match lookup(registry, camera_id) {
        Some(camera) => find_stream(camera.streams, stream_id),
        None => None,
    }
}

/// The cameras that the server knows, and the base URL under which it offers
/// their streams again.
///
/// A registry stands for a mapping from id to record, its view. It keeps the
/// records in the order in which their ids were first stored, and no id
/// occurs twice.
#[derive(Debug)]
pub struct Registry {
    base_url: String,
    cameras: Vec<Camera>,
}

impl View for Registry {
    type V = Map<Seq<char>, CameraModel>;

    open spec fn view(&self) -> Map<Seq<char>, CameraModel> {
        record_map(self.records())
    }
}

/// The place of the camera with id `id` in `cameras`.
fn position(cameras: &Vec<Camera>, id: &String) -> (r: Option<usize>)
    ensures
        match r {
            Some(i) => i < cameras.len() && cameras[i as int].id@ == id@,
            None => !has_id(camera_models(cameras@), id@),
        },
{
    let mut i: usize = 0;
    while i < cameras.len()
        invariant
            i <= cameras.len(),
            forall|j: int| 0 <= j < i ==> cameras[j].id@ != id@,
        decreases cameras.len() - i,
    {
        if cameras[i].id == *id {
            return Some(i);
        }
        i += 1;
    }
    assert(!has_id(camera_models(cameras@), id@)) by {
        if has_id(camera_models(cameras@), id@) {
            let j = choose|j: int|
                0 <= j < cameras.len() && (#[trigger] camera_models(cameras@)[j]).id == id@;
            assert(cameras[j].id@ != id@);
        }
    }
    None
}

/// Stores `camera` in `cameras`: in the place of the camera with its id where
/// there is one, at the end where there is none.
fn store(cameras: &mut Vec<Camera>, camera: Camera)
    requires
        distinct_ids(camera_models(old(cameras)@)),
    ensures
        camera_models(final(cameras)@) == upsert(camera_models(old(cameras)@), camera@),
        distinct_ids(camera_models(final(cameras)@)),
{
    let ghost before = camera_models(cameras@);
    let ghost record = camera@;
    match position(cameras, &camera.id) {
        Some(i) => {
            cameras.set(i, camera);
            proof {
                assert(before[i as int].id == record.id);
                assert(camera_models(cameras@) =~= overwrite(before, record)) by {
                    assert forall|j: int| 0 <= j < before.len() implies camera_models(cameras@)[j]
                        == overwrite(before, record)[j] by {
                        if j < i {
                            assert(before[j].id != before[i as int].id);
                        } else if j > i {
                            assert(before[i as int].id != before[j].id);
                        }
                    }
                }
            }
        },
        None => {
            cameras.push(camera);
            assert(camera_models(cameras@) =~= before.push(record));
        },
    }
    proof {
        lemma_upsert_distinct(before, record);
    }
}

/// The streams of a new camera `camera_id`, each with its recast URL.
fn register_streams(streams: &Vec<Stream>, base_url: &str, camera_id: &str) -> (r: Vec<Stream>)
    ensures
        r.len() == streams.len(),
        forall|i: int|
            0 <= i < streams.len() ==> (#[trigger] r[i])@ == with_recast(
                streams[i]@,
                base_url@,
                camera_id@,
            ),
{
    let mut r: Vec<Stream> = Vec::new();
    let mut i: usize = 0;
    while i < streams.len()
        invariant
            i <= streams.len(),
            r.len() == i,
            forall|j: int|
                0 <= j < i ==> (#[trigger] r[j])@ == with_recast(
                    streams[j]@,
                    base_url@,
                    camera_id@,
                ),
        decreases streams.len() - i,
    {
        let stream = streams[i].clone();
        let stream = if stream.recast_url.is_none() {
            let derived = derive_recast_url(base_url, camera_id, stream.id);
            stream.or_recast(derived)
        } else {
            stream
        };
        r.push(stream);
        i += 1;
    }
    r
}

impl Registry {
    /// No two cameras of a registry share an id.
    #[verifier::type_invariant]
    spec fn well_formed(&self) -> bool {
        distinct_ids(camera_models(self.cameras@))
    }

    /// The records of the registry, in the order in which their ids were
    /// first stored.
    pub closed spec fn records(&self) -> Seq<CameraModel> {
        camera_models(self.cameras@)
    }

    /// The base URL from which recast URLs are derived.
    pub closed spec fn base(&self) -> Seq<char> {
        self.base_url@
    }

    /// A registry without cameras.
    pub fn new(base_url: String) -> (r: Registry)
        ensures
            r.records() == Seq::<CameraModel>::empty(),
            r@ == Map::<Seq<char>, CameraModel>::empty(),
            r.base() == base_url@,
    {
        let r = Registry { base_url, cameras: Vec::new() };
        assert(r.records() =~= Seq::<CameraModel>::empty());
        r
    }

    /// The registry that holds what was read from storage: each of `loaded`
    /// stored in turn, so that of two records with one id the later one stays.
    pub fn from_records(base_url: String, loaded: Vec<Camera>) -> (r: Registry)
        ensures
            r.records() == absorb(camera_models(loaded@)),
            r@ == record_map(camera_models(loaded@)),
            r.base() == base_url@,
    {
        let mut cameras: Vec<Camera> = Vec::new();
        let mut i: usize = 0;
        assert(camera_models(loaded@).take(0) =~= Seq::<CameraModel>::empty());
        assert(camera_models(cameras@) =~= Seq::<CameraModel>::empty());
        while i < loaded.len()
            invariant
                i <= loaded.len(),
                camera_models(cameras@) == absorb(camera_models(loaded@).take(i as int)),
                distinct_ids(camera_models(cameras@)),
            decreases loaded.len() - i,
        {
            proof {
                let next = camera_models(loaded@).take(i + 1);
                assert(next.drop_last() =~= camera_models(loaded@).take(i as int));
                assert(next.last() == loaded[i as int]@);
            }
            store(&mut cameras, loaded[i].clone());
            i += 1;
        }
        proof {
            assert(camera_models(loaded@).take(i as int) =~= camera_models(loaded@));
            lemma_absorb(camera_models(loaded@));
        }
        Registry { base_url, cameras }
    }

    /// The base URL from which recast URLs are derived.
    pub fn base_url(&self) -> (r: &str)
        ensures
            r@ == self.base(),
    {
        self.base_url.as_str()
    }

    /// The number of cameras.
    pub fn len(&self) -> (r: usize)
        ensures
            r == self.records().len(),
    {
        self.cameras.len()
    }

    /// Whether the registry has no camera.
    pub fn is_empty(&self) -> (r: bool)
        ensures
            r == (self.records().len() == 0),
    {
        self.cameras.len() == 0
    }

    /// Whether a camera is stored under `id`.
    pub fn contains(&self, id: &str) -> (r: bool)
        ensures
            r == self@.contains_key(id@),
    {
        let key = id.to_owned();
        let found = position(&self.cameras, &key);
        proof {
            lemma_record_map_domain(self.records(), id@);
            if let Some(i) = found {
                assert(self.records()[i as int].id == id@);
            }
        }
        found.is_some()
    }

    /// Copies of all the records, in the order in which their ids were first
    /// stored. No id occurs twice among them.
    pub fn list(&self) -> (r: Vec<Camera>)
        ensures
            r.len() == self.records().len(),
            camera_models(r@) == self.records(),
            distinct_ids(camera_models(r@)),
    {
        proof {
            use_type_invariant(self);
        }
        let mut r: Vec<Camera> = Vec::new();
        let mut i: usize = 0;
        while i < self.cameras.len()
            invariant
                i <= self.cameras.len(),
                r.len() == i,
                forall|j: int| 0 <= j < i ==> r[j]@ == self.cameras[j]@,
            decreases self.cameras.len() - i,
        {
            r.push(self.cameras[i].clone());
            i += 1;
        }
        assert(camera_models(r@) =~= self.records());
        r
    }

    /// The listing views of all the records, in the same order as `list`. No
    /// id occurs twice among them.
    pub fn list_basic(&self) -> (r: Vec<BasicCameraInfo>)
        ensures
            r.len() == self.records().len(),
            forall|i: int|
                0 <= i < r.len() ==> (#[trigger] r[i])@ == basic_of(self.records()[i]),
            forall|i: int, j: int|
                0 <= i < j < r.len() ==> (#[trigger] r[i])@.id != (#[trigger] r[j])@.id,
    {
        proof {
            use_type_invariant(self);
        }
        let mut r: Vec<BasicCameraInfo> = Vec::new();
        let mut i: usize = 0;
        while i < self.cameras.len()
            invariant
                i <= self.cameras.len(),
                r.len() == i,
                forall|j: int| 0 <= j < i ==> (#[trigger] r[j])@ == basic_of(self.cameras[j]@),
            decreases self.cameras.len() - i,
        {
            r.push(self.cameras[i].basic());
            i += 1;
        }
        assert forall|i: int, j: int| 0 <= i < j < r.len() implies (#[trigger] r[i])@.id != (
        #[trigger] r[j])@.id by {
            assert(self.records()[i].id != self.records()[j].id);
        }
        r
    }

    /// A copy of the record stored under `id`, or `None` where there is none.
    pub fn get(&self, id: &str) -> (r: Option<Camera>)
        ensures
            match r {
                Some(camera) => lookup(self@, id@) == Some(camera@),
                None => lookup(self@, id@) is None,
            },
    {
        proof {
            use_type_invariant(self);
            lemma_record_map_domain(self.records(), id@);
        }
        let key = id.to_owned();
        match position(&self.cameras, &key) {
            Some(i) => {
                proof {
                    lemma_record_map_entry(self.records(), i as int);
                }
                Some(self.cameras[i].clone())
            },
            None => None,
        }
    }

    /// A copy of stream `stream_id` of the camera stored under `camera_id`,
    /// or `None` where the camera or the stream is missing. Of two streams
    /// with the id it is the first; where the camera's stream ids do not
    /// repeat, it is the only one.
    pub fn get_stream(&self, camera_id: &str, stream_id: u64) -> (r: Option<Stream>)
        ensures
            match r {
                Some(stream) => {
                    &&& lookup_stream(self@, camera_id@, stream_id) == Some(stream@)
                    &&& stream@.id == stream_id
                    &&& is_only_stream(self@[camera_id@].streams, stream_id, stream@)
                },
                None => {
                    &&& lookup_stream(self@, camera_id@, stream_id) is None
                    &&& self@.contains_key(camera_id@) ==> no_stream_has(
                        self@[camera_id@].streams,
                        stream_id,
                    )
                },
            },
    {
        proof {
            use_type_invariant(self);
            lemma_record_map_domain(self.records(), camera_id@);
        }
        let key = camera_id.to_owned();
        match position(&self.cameras, &key) {
            Some(i) => {
                proof {
                    lemma_record_map_entry(self.records(), i as int);
                }
                match self.cameras[i].stream(stream_id) {
                    Some(stream) => Some(stream.clone()),
                    None => None,
                }
            },
            None => None,
        }
    }

    /// Stores `candidate` as a new camera under `id`, unless `id` is in use.
    ///
    /// The stored record has `id` for its id, whatever the candidate names,
    /// and each stream without a recast URL gets the one derived from the base
    /// URL; the streams keep their ids and their order. Returns a copy of the
    /// stored record, or `None`, with the registry as it was, where a camera
    /// is stored under `id` already.
    pub fn register(&mut self, id: String, candidate: Camera) -> (r: Option<Camera>)
        ensures
            final(self).base() == old(self).base(),
            match r {
                Some(stored) => {
                    &&& !old(self)@.contains_key(id@)
                    &&& stored@ == registered(candidate@, id@, old(self).base())
                    &&& distinct_stream_ids(candidate@.streams) ==> distinct_stream_ids(
                        stored@.streams,
                    )
                    &&& final(self).records() == old(self).records().push(stored@)
                    &&& final(self)@ == old(self)@.insert(id@, stored@)
                    &&& final(self)@.contains_key(id@)
                },
                None => {
                    &&& old(self)@.contains_key(id@)
                    &&& final(self).records() == old(self).records()
                },
            },
    {
        proof {
            use_type_invariant(&*self);
            lemma_record_map_domain(self.records(), id@);
        }
        if let Some(i) = position(&self.cameras, &id) {
            assert(self.records()[i as int].id == id@);
            return None;
        }
        let streams = register_streams(&candidate.streams, self.base_url.as_str(), id.as_str());
        let camera = Camera { id, name: candidate.name, streams };
        let stored = camera.clone();
        assert(stored@ =~= registered(candidate@, id@, self.base())) by {
            assert(stored@.streams =~= registered(candidate@, id@, self.base()).streams);
        }
        proof {
            lemma_registered_stream_ids(candidate@, id@, self.base());
        }
        let ghost before = self.records();
        let mut cameras: Vec<Camera> = Vec::new();
        std::mem::swap(&mut cameras, &mut self.cameras);
        cameras.push(camera);
        proof {
            assert(camera_models(cameras@) =~= before.push(stored@));
            lemma_upsert_distinct(before, stored@);
            lemma_record_map_push(before, stored@);
        }
        self.cameras = cameras;
        Some(stored)
    }

    /// Registers `candidate` as a new camera under a fresh id.
    ///
    /// The id is drawn at random among those not in use; see `register` for the
    /// record that is stored. The draw and the store happen in this one call,
    /// on a registry that the caller holds for itself, so no other create
    /// comes between them. Fails with `AllocationExhausted`, the registry as
    /// it was, where no unused id came up; an empty registry never fails.
    pub fn create(&mut self, candidate: Camera) -> (r: Result<Camera, RegistryError>)
        ensures
            final(self).base() == old(self).base(),
            match r {
                Ok(stored) => {
                    &&& is_camera_id(stored@.id)
                    &&& !old(self)@.contains_key(stored@.id)
                    &&& stored@ == registered(candidate@, stored@.id, old(self).base())
                    &&& distinct_stream_ids(candidate@.streams) ==> distinct_stream_ids(
                        stored@.streams,
                    )
                    &&& final(self).records() == old(self).records().push(stored@)
                    &&& final(self)@ == old(self)@.insert(stored@.id, stored@)
                    &&& final(self)@.contains_key(stored@.id)
                },
                Err(e) => {
                    &&& e == RegistryError::AllocationExhausted
                    &&& final(self).records() == old(self).records()
                },
            },
            old(self).records().len() == 0 ==> r is Ok,
    {
        match generate_camera_id(&*self) {
            Ok(id) => {
                let stored = self.register(id, candidate);
                Ok(stored.unwrap())
            },
            Err(e) => Err(e),
        }
    }

    /// Stores `candidate` under `id` in place of the record that is there,
    /// whole, or as a new record where there is none.
    ///
    /// The candidate must name `id` as its own id: one that does not is
    /// rejected with `ValidationRejected` and the registry stays as it was.
    /// Nothing is derived: the record is stored as it stands. Returns a copy
    /// of it.
    pub fn replace(&mut self, id: &str, candidate: Camera) -> (r: Result<Camera, RegistryError>)
        ensures
            final(self).base() == old(self).base(),
            match r {
                Ok(stored) => {
                    &&& candidate@.id == id@
                    &&& stored@ == candidate@
                    &&& final(self).records() == upsert(old(self).records(), candidate@)
                    &&& final(self)@ == old(self)@.insert(id@, candidate@)
                },
                Err(e) => {
                    &&& candidate@.id != id@
                    &&& e == RegistryError::ValidationRejected
                    &&& final(self).records() == old(self).records()
                },
            },
    {
        proof {
            use_type_invariant(&*self);
        }
        let key = id.to_owned();
        if !(candidate.id == key) {
            return Err(RegistryError::ValidationRejected);
        }
        let stored = candidate.clone();
        let ghost before = self.records();
        let mut cameras: Vec<Camera> = Vec::new();
        std::mem::swap(&mut cameras, &mut self.cameras);
        store(&mut cameras, candidate);
        proof {
            lemma_record_map_upsert(before, stored@);
        }
        self.cameras = cameras;
        Ok(stored)
    }
}

} // verus!
