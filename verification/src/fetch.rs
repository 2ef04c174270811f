//! Artifact fetching: the staging plan for the two concurrent
//! downloads, a sink that models streaming a response body to a
//! destination file chunk by chunk, and the "join all, fail fast on
//! any" aggregation of the concurrent results. The network and file
//! I/O themselves live outside the library; every byte that reaches
//! a sink is accounted for here.

use vstd::prelude::*;
use vstd::string::StrSliceExecFns;
use vstd::string::StringSliceAdditionalSpecFns;
use crate::errors::LauncherError;

verus! {

pub open spec fn spec_staging_dir() -> Seq<u8> {
    "updates".spec_bytes()
}

pub open spec fn spec_client_archive_path() -> Seq<u8> {
    "updates/client.tar.gz".spec_bytes()
}

pub open spec fn spec_server_archive_path() -> Seq<u8> {
    "updates/server.tar.gz".spec_bytes()
}

/// The staging directory that must exist before any download starts.
pub fn staging_dir() -> (r: Vec<u8>)
    ensures
        r@ == spec_staging_dir(),
{
    ("updates").as_bytes_vec()
}

pub fn client_archive_path() -> (r: Vec<u8>)
    ensures
        r@ == spec_client_archive_path(),
{
    ("updates/client.tar.gz").as_bytes_vec()
}

pub fn server_archive_path() -> (r: Vec<u8>)
    ensures
        r@ == spec_server_archive_path(),
{
    ("updates/server.tar.gz").as_bytes_vec()
}

/// One pending download: where from, and where the bytes land.
#[derive(Debug, PartialEq, Eq)]
pub struct DownloadTask {
    pub url: Vec<u8>,
    pub destination: Vec<u8>,
}

/// Mathematical model of a download task.
pub struct TaskModel {
    pub url: Seq<u8>,
    pub destination: Seq<u8>,
}

impl View for DownloadTask {
    type V = TaskModel;

    open spec fn view(&self) -> TaskModel {
        TaskModel { url: self.url@, destination: self.destination@ }
    }
}

/// The two tasks of one update: the client artifact and the server
/// artifact, each to its fixed staging path. The destinations are
/// deliberately disjoint so the concurrent writers never share a
/// file.
pub fn plan_downloads(client_url: Vec<u8>, server_url: Vec<u8>) -> (r: Vec<DownloadTask>)
    ensures
        r@.len() == 2,
        r@[0]@ == (TaskModel { url: client_url@, destination: spec_client_archive_path() }),
        r@[1]@ == (TaskModel { url: server_url@, destination: spec_server_archive_path() }),
{
    let mut r: Vec<DownloadTask> = Vec::new();
    r.push(DownloadTask { url: client_url, destination: client_archive_path() });
    r.push(DownloadTask { url: server_url, destination: server_archive_path() });
    r
}

/// A destination file in the middle of a streamed download: the
/// bytes written so far and whether the stream has terminated
/// normally. A download is complete only once every chunk has been
/// appended and the end of the stream was seen; a sink that was
/// never finished never yields an artifact.
pub struct StreamSink {
    data: Vec<u8>,
    finished: bool,
}

impl StreamSink {
    /// The bytes written to the destination so far.
    pub closed spec fn written(&self) -> Seq<u8> {
        self.data@
    }

    /// Whether the stream terminated normally.
    pub closed spec fn complete(&self) -> bool {
        self.finished
    }

    pub fn new() -> (s: Self)
        ensures
            s.written() == Seq::<u8>::empty(),
            !s.complete(),
    {
        StreamSink { data: Vec::new(), finished: false }
    }

    /// Append one chunk of the response body, whatever its size:
    /// exactly its bytes, in order, land after what was already
    /// written, so the final content is independent of how the
    /// stream happened to be chunked.
    pub fn append_chunk(&mut self, chunk: &Vec<u8>)
        requires
            !old(self).complete(),
        ensures
            final(self).written() == old(self).written() + chunk@,
            !final(self).complete(),
    {
        crate::text::extend_bytes(&mut self.data, chunk);
    }

    /// The stream reached its end without error.
    pub fn finish(&mut self)
        ensures
            final(self).written() == old(self).written(),
            final(self).complete(),
    {
        self.finished = true;
    }

    /// The downloaded artifact, but only from a normally terminated
    /// stream: a partially written file is never handed on for
    /// extraction.
    pub fn into_artifact(self) -> (r: Option<Vec<u8>>)
        ensures
            self.complete() ==> (r matches Some(d) && d@ == self.written()),
            !self.complete() ==> r is None,
    {
        if self.finished {
            Some(self.data)
        } else {
            None
        }
    }
}

/// The first failure among the per-task results, if any.
pub open spec fn first_failure(rs: Seq<Result<(), LauncherError>>) -> Option<LauncherError>
    decreases rs.len(),
{
    if rs.len() == 0 {
        Option::None
    } else {
        match rs[0] {
            Result::Ok(_) => first_failure(rs.drop_first()),
            Result::Err(e) => Option::Some(e),
        }
    }
}

/// "Join all, fail fast on any": the batch succeeds only when every
/// constituent task succeeded, and otherwise reports the first
/// failure observed, so the caller learns which task broke.
pub fn join_all(results: Vec<Result<(), LauncherError>>) -> (r: Result<(), LauncherError>)
    ensures
        r is Ok <==> first_failure(results@) is None,
        first_failure(results@) matches Some(e) ==> (r matches Err(e2) && e2 == e),
{
    let ghost rs = results@;
    let mut rem = results;
    let mut i: usize = 0;
    proof {
        assert(rs.skip(0) =~= rs);
    }
    while i < rem.len()
        invariant
            rs == results@,
            rem@ == rs,
            0 <= i <= rs.len(),
            first_failure(rs) == first_failure(rs.skip(i as int)),
            forall|j: int| 0 <= j < i ==> rs[j] is Ok,
        decreases rs.len() - i,
    {
        proof {
            assert(rs.skip(i as int)[0] == rs[i as int]);
            assert(rs.skip(i as int).drop_first() =~= rs.skip(i as int + 1));
        }
        let failed = match &rem[i] {
            Result::Ok(_) => false,
            Result::Err(_) => true,
        };
        if failed {
            let taken = rem.remove(i);
            match taken {
                Result::Err(e) => {
                    proof {
                        assert(first_failure(rs.skip(i as int)) == Some(e));
                    }
                    return Err(e);
                },
                Result::Ok(_) => {
                    proof {
                        assert(false);
                    }
                },
            }
        }
        i += 1;
    }
    proof {
        assert(rs.skip(rs.len() as int) =~= Seq::<Result<(), LauncherError>>::empty());
    }
    Ok(())
}

/// Law: splitting a source stream at any boundary and appending the
/// two halves in order reproduces exactly the source bytes — the
/// round trip through a sink is intact regardless of chunking.
pub proof fn lemma_chunk_boundary(source: Seq<u8>, cut: int)
    requires
        0 <= cut <= source.len(),
    ensures
        source.subrange(0, cut) + source.subrange(cut, source.len() as int) == source,
{
    assert(source.subrange(0, cut) + source.subrange(cut, source.len() as int)
        =~= source);
}

} // verus!
