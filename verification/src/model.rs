//! Camera records and their mathematical models.

use vstd::prelude::*;

verus! {

/// What a [`Stream`] is, as plain values.
pub struct StreamModel {
    pub id: u64,
    pub source_url: Seq<char>,
    pub recast_url: Option<Seq<char>>,
}

/// What a [`Camera`] is, as plain values.
pub struct CameraModel {
    pub id: Seq<char>,
    pub name: Seq<char>,
    pub streams: Seq<StreamModel>,
}

/// What a [`BasicCameraInfo`] is, as plain values.
pub struct BasicCameraModel {
    pub id: Seq<char>,
    pub name: Seq<char>,
}

/// The characters of an optional string.
pub open spec fn text_of(s: Option<String>) -> Option<Seq<char>> {
    match s {
        Some(s) => Some(s@),
        None => None,
    }
}

/// The models of a run of streams, in order.
pub open spec fn stream_models(streams: Seq<Stream>) -> Seq<StreamModel> {
    Seq::new(streams.len(), |i: int| streams[i]@)
}

/// The models of a run of cameras, in order.
pub open spec fn camera_models(cameras: Seq<Camera>) -> Seq<CameraModel> {
    Seq::new(cameras.len(), |i: int| cameras[i]@)
}

/// `stream`, with `derived` as its recast URL where it has none of its own.
pub open spec fn recast_or(stream: StreamModel, derived: Option<Seq<char>>) -> StreamModel {
    if stream.recast_url is Some {
        stream
    } else {
        StreamModel { recast_url: derived, ..stream }
    }
}

/// The first stream of `streams` whose id is `id`.
pub open spec fn find_stream(streams: Seq<StreamModel>, id: u64) -> Option<StreamModel>
    decreases streams.len(),
{
    if streams.len() == 0 {
        None
    } else if streams[0].id == id {
        Some(streams[0])
    } else {
        find_stream(streams.drop_first(), id)
    }
}

/// No two streams of `streams` share an id: what the streams of one camera
/// are meant to keep to.
pub open spec fn distinct_stream_ids(streams: Seq<StreamModel>) -> bool {
    forall|i: int, j: int|
        0 <= i < j < streams.len() ==> (#[trigger] streams[i]).id != (#[trigger] streams[j]).id
}

/// No stream of `streams` has the id `id`.
pub open spec fn no_stream_has(streams: Seq<StreamModel>, id: u64) -> bool {
    forall|i: int| 0 <= i < streams.len() ==> (#[trigger] streams[i]).id != id
}

/// Where no stream id repeats in `streams`, `found` is the one stream with
/// the id `id`: every stream of `streams` that has the id is `found`.
pub open spec fn is_only_stream(streams: Seq<StreamModel>, id: u64, found: StreamModel) -> bool {
    distinct_stream_ids(streams) ==> forall|i: int|
        0 <= i < streams.len() && (#[trigger] streams[i]).id == id ==> streams[i] == found
}

/// What a lookup by id finds is a stream with that id, and the only one
/// where no id repeats; it finds nothing exactly where no stream has the id.
pub proof fn lemma_find_stream(streams: Seq<StreamModel>, id: u64)
    ensures
        match find_stream(streams, id) {
            Some(found) => {
                &&& found.id == id
                &&& streams.contains(found)
                &&& is_only_stream(streams, id, found)
            },
            None => no_stream_has(streams, id),
        },
    decreases streams.len(),
{
    if streams.len() > 0 {
        let rest = streams.drop_first();
        if streams[0].id == id {
            assert(streams.contains(streams[0]));
            if distinct_stream_ids(streams) {
                assert forall|i: int| 0 <= i < streams.len() && (#[trigger] streams[i]).id
                    == id implies streams[i] == streams[0] by {
                    if i > 0 {
                        assert(streams[0].id != streams[i].id);
                    }
                }
            }
        } else {
            lemma_find_stream(rest, id);
            assert forall|i: int| 0 <= i < rest.len() implies rest[i] == streams[i + 1] by {}
            match find_stream(rest, id) {
                Some(found) => {
                    let k = choose|k: int| 0 <= k < rest.len() && rest[k] == found;
                    assert(streams[k + 1] == found);
                    if distinct_stream_ids(streams) {
                        assert(distinct_stream_ids(rest)) by {
                            assert forall|a: int, b: int| 0 <= a < b < rest.len() implies (
                            #[trigger] rest[a]).id != (#[trigger] rest[b]).id by {
                                assert(streams[a + 1].id != streams[b + 1].id);
                            }
                        }
                        assert forall|i: int| 0 <= i < streams.len() && (#[trigger] streams[i]).id
                            == id implies streams[i] == found by {
                            assert(i > 0);
                            assert(rest[i - 1].id == id);
                        }
                    }
                },
                None => {
                    assert forall|i: int| 0 <= i < streams.len() implies (#[trigger] streams[i]).id
                        != id by {
                        if i > 0 {
                            assert(rest[i - 1].id != id);
                        }
                    }
                },
            }
        }
    }
}

/// The listing view of a camera: its id and name, without its streams.
pub open spec fn basic_of(camera: CameraModel) -> BasicCameraModel {
    BasicCameraModel { id: camera.id, name: camera.name }
}

/// One media feed of a camera.
#[derive(Debug, PartialEq, Eq)]
pub struct Stream {
    /// Tells the stream apart from the others of its camera.
    pub id: u64,
    /// Where the producer offers the media.
    pub source_url: String,
    /// Where the server offers the media again, once that is known.
    pub recast_url: Option<String>,
}

/// A registered video source.
#[derive(Debug, PartialEq, Eq)]
pub struct Camera {
    /// Assigned by the registry; what a client sends here on creation is ignored.
    pub id: String,
    pub name: String,
    /// The feeds of the camera. Their ids are meant to differ; where two are
    /// equal, a lookup by id finds the first.
    pub streams: Vec<Stream>,
}

/// A camera as listings show it: id and name only.
#[derive(Debug, PartialEq, Eq)]
pub struct BasicCameraInfo {
    pub id: String,
    pub name: String,
}

impl View for Stream {
    type V = StreamModel;

    open spec fn view(&self) -> StreamModel {
        StreamModel {
            id: self.id,
            source_url: self.source_url@,
            recast_url: text_of(self.recast_url),
        }
    }
}

impl View for Camera {
    type V = CameraModel;

    open spec fn view(&self) -> CameraModel {
        CameraModel { id: self.id@, name: self.name@, streams: stream_models(self.streams@) }
    }
}

impl View for BasicCameraInfo {
    type V = BasicCameraModel;

    open spec fn view(&self) -> BasicCameraModel {
        BasicCameraModel { id: self.id@, name: self.name@ }
    }
}

/// A copy of an optional string.
pub fn copy_text(s: &Option<String>) -> (r: Option<String>)
    ensures
        text_of(r) == text_of(*s),
{
    match s {
        Some(s) => Some(s.clone()),
        None => None,
    }
}

impl Clone for Stream {
    fn clone(&self) -> (r: Self)
        ensures
            r@ == self@,
    {
        Stream {
            id: self.id,
            source_url: self.source_url.clone(),
            recast_url: copy_text(&self.recast_url),
        }
    }
}

impl Stream {
    /// This stream, with `derived` as its recast URL where it has none of its own.
    pub fn or_recast(self, derived: Option<String>) -> (r: Stream)
        ensures
            r@ == recast_or(self@, text_of(derived)),
    {
        if self.recast_url.is_some() {
            self
        } else {
            Stream { id: self.id, source_url: self.source_url, recast_url: derived }
        }
    }
}

/// Copies of `streams`, in order.
pub fn copy_streams(streams: &Vec<Stream>) -> (r: Vec<Stream>)
    ensures
        stream_models(r@) == stream_models(streams@),
{
    let mut r: Vec<Stream> = Vec::new();
    let mut i: usize = 0;
    while i < streams.len()
        invariant
            i <= streams.len(),
            r.len() == i,
            forall|j: int| 0 <= j < i ==> r[j]@ == streams[j]@,
        decreases streams.len() - i,
    {
        r.push(streams[i].clone());
        i += 1;
    }
    assert(stream_models(r@) =~= stream_models(streams@));
    r
}

impl Clone for Camera {
    fn clone(&self) -> (r: Self)
        ensures
            r@ == self@,
    {
        Camera {
            id: self.id.clone(),
            name: self.name.clone(),
            streams: copy_streams(&self.streams),
        }
    }
}

impl Clone for BasicCameraInfo {
    fn clone(&self) -> (r: Self)
        ensures
            r@ == self@,
    {
        BasicCameraInfo { id: self.id.clone(), name: self.name.clone() }
    }
}

impl From<Camera> for BasicCameraInfo {
    /// Keeps the id and the name of `camera` and drops its streams.
    fn from(camera: Camera) -> (r: BasicCameraInfo) {
        BasicCameraInfo { id: camera.id, name: camera.name }
    }
}

impl vstd::std_specs::convert::FromSpecImpl<Camera> for BasicCameraInfo {
    open spec fn obeys_from_spec() -> bool {
        true
    }

    open spec fn from_spec(camera: Camera) -> BasicCameraInfo {
        BasicCameraInfo { id: camera.id, name: camera.name }
    }
}

impl Camera {
    /// The listing view of this camera.
    pub fn basic(&self) -> (r: BasicCameraInfo)
        ensures
            r@ == basic_of(self@),
    {
        BasicCameraInfo { id: self.id.clone(), name: self.name.clone() }
    }

    /// This camera with `id` for its id.
    pub fn with_id(self, id: String) -> (r: Camera)
        ensures
            r@ == (CameraModel { id: id@, ..self@ }),
    {
        Camera { id, name: self.name, streams: self.streams }
    }

    /// Whether no two streams of this camera share an id.
    pub fn has_distinct_stream_ids(&self) -> (r: bool)
        ensures
            r == distinct_stream_ids(self@.streams),
    {
        let mut j: usize = 0;
        while j < self.streams.len()
            invariant
                j <= self.streams.len(),
                forall|a: int, b: int|
                    0 <= a < b < j ==> (#[trigger] self@.streams[a]).id != (
                    #[trigger] self@.streams[b]).id,
            decreases self.streams.len() - j,
        {
            let mut i: usize = 0;
            while i < j
                invariant
                    i <= j < self.streams.len(),
                    forall|a: int|
                        0 <= a < i ==> (#[trigger] self@.streams[a]).id != self@.streams[j as int].id,
                decreases j - i,
            {
                if self.streams[i].id == self.streams[j].id {
                    assert(self@.streams[i as int].id == self@.streams[j as int].id);
                    return false;
                }
                i += 1;
            }
            j += 1;
        }
        true
    }

    /// The stream of this camera whose id is `stream_id`, if it has one: the
    /// first such stream, which is the only one where no stream id repeats.
    pub fn stream(&self, stream_id: u64) -> (r: Option<&Stream>)
        ensures
            match r {
                Some(s) => {
                    &&& find_stream(self@.streams, stream_id) == Some(s@)
                    &&& s@.id == stream_id
                    &&& is_only_stream(self@.streams, stream_id, s@)
                },
                None => {
                    &&& find_stream(self@.streams, stream_id) is None
                    &&& no_stream_has(self@.streams, stream_id)
                },
            },
    {
        proof {
            lemma_find_stream(self@.streams, stream_id);
        }
        let mut i: usize = 0;
        assert(self@.streams.skip(0) =~= self@.streams);
        while i < self.streams.len()
            invariant
                i <= self.streams.len(),
                find_stream(self@.streams, stream_id) == find_stream(
                    self@.streams.skip(i as int),
                    stream_id,
                ),
            decreases self.streams.len() - i,
        {
            proof {
                let rest = self@.streams.skip(i as int);
                assert(rest[0] == self.streams[i as int]@);
                assert(rest.drop_first() =~= self@.streams.skip(i + 1));
            }
            if self.streams[i].id == stream_id {
                return Some(&self.streams[i]);
            }
            i += 1;
        }
        assert(self@.streams.skip(i as int).len() == 0);
        None
    }
}

} // verus!
