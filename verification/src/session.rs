//! One download: its transfer buffer, progress counters, error slot, and the
//! operations a caller and the transfer task perform on it.

use vstd::prelude::*;
use vstd::string::StringExecFns;

use crate::hashing::{hex_decode, hex_decoded, is_hex_string, sha256_digest, sha256_of};
use crate::DownloadError;

verus! {

/// A point-in-time snapshot of a transfer's counters.
#[derive(Debug)]
pub struct DownloadInfo {
    /// Bytes received so far.
    pub downloaded: usize,
    /// Whether the transfer reached a clean end of stream.
    pub finished: bool,
    /// The size the server declared, or 0 while (or permanently) unknown.
    pub total_size: u64,
    /// The first failure or termination, if any.
    pub err: Option<String>,
}

/// The view of an optional error message.
pub open spec fn err_view(e: Option<String>) -> Option<Seq<char>> {
    match e {
        None => None,
        Some(s) => Some(s@),
    }
}

/// The transfer buffer of one download together with its identity: the bytes
/// received so far, the progress counters, and the error slot.
pub struct DownloadHandleRef {
    /// Count of bytes appended so far; always equals `data`'s length.
    pub downloaded: usize,
    /// True once the fetch ended cleanly; no writes happen afterwards.
    pub finished: bool,
    /// Expected final size; 0 until (or unless) the server declares one.
    pub total_size: u64,
    /// The bytes received so far, in arrival order.
    pub data: Vec<u8>,
    /// The source the transfer fetches from.
    pub url: String,
    /// The hex-encoded expected SHA-256 digest; also the registry key.
    pub hash: String,
    /// The first failure or termination, set at most once per attempt.
    pub err: Option<String>,
}

/// The result verification reports for a session in a given state.
pub open spec fn validate_result(s: DownloadHandleRef) -> Result<bool, DownloadError> {
    if !s.finished {
        Err(DownloadError::NotFinished)
    } else if !is_hex_string(s.hash@) {
        Err(DownloadError::HashDecode)
    } else {
        Ok(hex_decoded(s.hash@) == sha256_of(s.data@))
    }
}

/// One allowed transition of a transfer buffer over the life of a download:
/// nothing at all, or — while the buffer is live — recording the declared
/// size, appending a received chunk, or reaching a terminal state by a clean
/// finish or a recorded failure; or the termination marker, from any state.
pub open spec fn buffer_step(pre: DownloadHandleRef, post: DownloadHandleRef) -> bool {
    ||| post == pre
    ||| (!pre.is_terminal() && post == (DownloadHandleRef { total_size: post.total_size, ..pre }))
    ||| (!pre.is_terminal() && {
        &&& pre.data@.is_prefix_of(post.data@)
        &&& post.downloaded == pre.downloaded + post.data@.len() - pre.data@.len()
        &&& post == (DownloadHandleRef { downloaded: post.downloaded, data: post.data, ..pre })
    })
    ||| (!pre.is_terminal() && post == (DownloadHandleRef { finished: true, ..pre }))
    ||| (post.err is Some && post == (DownloadHandleRef { err: post.err, ..pre }))
}

impl DownloadHandleRef {
    /// The byte counter counts exactly the buffered bytes.
    pub open spec fn wf(self) -> bool {
        self.downloaded == self.data@.len()
    }

    /// A terminal buffer: finished, failed or terminated. No operation
    /// writes to the buffer afterwards.
    pub open spec fn is_terminal(self) -> bool {
        self.finished || self.err is Some
    }

    /// Records the size the server declared for the transfer.
    pub fn set_total_size(&mut self, n: u64)
        requires
            old(self).wf(),
            !old(self).is_terminal(),
        ensures
            final(self).wf(),
            *final(self) == (DownloadHandleRef { total_size: n, ..*old(self) }),
            final(self).downloaded >= old(self).downloaded,
            buffer_step(*old(self), *final(self)),
    {
        self.total_size = n;
    }

    /// Appends one received chunk to the buffer and counts its bytes.
    pub fn append_chunk(&mut self, chunk: &Vec<u8>)
        requires
            old(self).wf(),
            !old(self).is_terminal(),
            old(self).downloaded + chunk@.len() <= usize::MAX,
        ensures
            final(self).wf(),
            final(self).data@ == old(self).data@ + chunk@,
            final(self).downloaded == old(self).downloaded + chunk@.len(),
            final(self).finished == old(self).finished,
            final(self).total_size == old(self).total_size,
            final(self).url == old(self).url,
            final(self).hash == old(self).hash,
            final(self).err == old(self).err,
            final(self).downloaded >= old(self).downloaded,
            buffer_step(*old(self), *final(self)),
    {
        let mut i: usize = 0;
        while i < chunk.len()
            invariant
                0 <= i <= chunk@.len(),
                self.data@ == old(self).data@ + chunk@.subrange(0, i as int),
                old(self).data@.len() + chunk@.len() <= usize::MAX,
                self.downloaded == old(self).downloaded,
                self.finished == old(self).finished,
                self.total_size == old(self).total_size,
                self.url == old(self).url,
                self.hash == old(self).hash,
                self.err == old(self).err,
                old(self).wf(),
            decreases chunk@.len() - i,
        {
            self.data.push(chunk[i]);
            i = i + 1;
        }
        proof {
            assert(chunk@.subrange(0, chunk@.len() as int) =~= chunk@);
        }
        self.downloaded = self.downloaded + chunk.len();
        proof {
            assert(old(self).data@ =~= self.data@.subrange(0, old(self).data@.len() as int));
        }
    }

    /// Marks a clean end of stream.
    pub fn mark_finished(&mut self)
        requires
            old(self).wf(),
            !old(self).is_terminal(),
        ensures
            final(self).wf(),
            *final(self) == (DownloadHandleRef { finished: true, ..*old(self) }),
            final(self).downloaded >= old(self).downloaded,
            buffer_step(*old(self), *final(self)),
    {
        self.finished = true;
    }

    /// Records the first transport failure; the buffer keeps whatever bytes
    /// arrived before it.
    pub fn record_failure(&mut self, msg: String)
        requires
            old(self).wf(),
            !old(self).is_terminal(),
        ensures
            final(self).wf(),
            *final(self) == (DownloadHandleRef { err: Some(msg), ..*old(self) }),
            final(self).downloaded >= old(self).downloaded,
            buffer_step(*old(self), *final(self)),
    {
        self.err = Some(msg);
    }

    /// Verifies the finished buffer against the expected digest: an error
    /// before the transfer finished or when the stored hash is not hex,
    /// otherwise whether the buffer's SHA-256 digest matches it.
    pub fn validate_sha256(&self) -> (r: Result<bool, DownloadError>)
        ensures
            r == validate_result(*self),
    {
        if !self.finished {
            return Err(DownloadError::NotFinished);
        }
        let digest = sha256_digest(&self.data);
        let expected = match hex_decode(&self.hash) {
            Ok(v) => v,
            Err(_) => {
                return Err(DownloadError::HashDecode);
            },
        };
        Ok(bytes_equal(&expected, &digest))
    }

    /// A copy of the buffer's current contents, complete or not.
    pub fn getfile(&self) -> (r: Result<Vec<u8>, DownloadError>)
        ensures
            r matches Ok(v) && v@ == self.data@,
    {
        let mut out: Vec<u8> = Vec::new();
        let mut i: usize = 0;
        while i < self.data.len()
            invariant
                0 <= i <= self.data@.len(),
                out@ == self.data@.subrange(0, i as int),
            decreases self.data@.len() - i,
        {
            out.push(self.data[i]);
            i = i + 1;
        }
        proof {
            assert(self.data@.subrange(0, self.data@.len() as int) =~= self.data@);
        }
        Ok(out)
    }
}

/// Whether two byte vectors hold the same bytes.
fn bytes_equal(a: &Vec<u8>, b: &Vec<u8>) -> (r: bool)
    ensures
        r == (a@ == b@),
{
    if a.len() != b.len() {
        proof {
            assert(a@ != b@);
        }
        return false;
    }
    let mut i: usize = 0;
    while i < a.len()
        invariant
            0 <= i <= a@.len(),
            a@.len() == b@.len(),
            forall|j: int| 0 <= j < i ==> a@[j] == b@[j],
        decreases a@.len() - i,
    {
        if a[i] != b[i] {
            return false;
        }
        i = i + 1;
    }
    proof {
        assert(a@ =~= b@);
    }
    true
}

/// The externally visible handle for one download: the transfer buffer plus
/// whether a transfer task currently runs on its behalf.
pub struct DownloadHandle {
    /// The buffer and counters the task fills.
    pub inner: DownloadHandleRef,
    /// Whether a transfer task has been started and not yet terminated.
    pub running: bool,
}

impl DownloadHandle {
    /// The handle's buffer is well formed.
    pub open spec fn wf(self) -> bool {
        self.inner.wf()
    }

    /// A snapshot of the transfer's counters; never blocks on the transfer.
    pub fn download_progress(&self) -> (info: DownloadInfo)
        ensures
            info.downloaded == self.inner.downloaded,
            info.finished == self.inner.finished,
            info.total_size == self.inner.total_size,
            err_view(info.err) == err_view(self.inner.err),
    {
        DownloadInfo {
            downloaded: self.inner.downloaded,
            finished: self.inner.finished,
            total_size: self.inner.total_size,
            err: match &self.inner.err {
                None => None,
                Some(e) => Some(e.clone()),
            },
        }
    }

    /// Marks the transfer task as launched. A session is started exactly
    /// once, directly after construction.
    pub fn download_start(&mut self)
        requires
            !old(self).running,
        ensures
            final(self).inner == old(self).inner,
            final(self).running,
    {
        self.running = true;
    }

    /// Stops the transfer task if one is still held and records the
    /// termination marker; without a held task it changes nothing, so a
    /// second termination is a harmless no-op.
    pub fn download_terminate(&mut self)
        ensures
            !old(self).running ==> *final(self) == *old(self),
            old(self).running ==> {
                &&& !final(self).running
                &&& err_view(final(self).inner.err) == Some("Terminated"@)
                &&& final(self).inner.downloaded == old(self).inner.downloaded
                &&& final(self).inner.finished == old(self).inner.finished
                &&& final(self).inner.total_size == old(self).inner.total_size
                &&& final(self).inner.data == old(self).inner.data
                &&& final(self).inner.url == old(self).inner.url
                &&& final(self).inner.hash == old(self).inner.hash
            },
            final(self).wf() == old(self).wf(),
            final(self).inner.downloaded >= old(self).inner.downloaded,
            buffer_step(old(self).inner, final(self).inner),
    {
        if !self.running {
            return;
        }
        self.running = false;
        self.inner.err = Some(String::from_str("Terminated"));
    }

    /// Verifies the finished buffer against the expected digest.
    pub fn validate_sha256(&self) -> (r: Result<bool, DownloadError>)
        ensures
            r == validate_result(self.inner),
    {
        self.inner.validate_sha256()
    }

    /// A copy of the buffer's current contents, complete or not.
    pub fn getfile(&self) -> (r: Result<Vec<u8>, DownloadError>)
        ensures
            r matches Ok(v) && v@ == self.inner.data@,
    {
        self.inner.getfile()
    }
}

/// A fresh, not yet started download of `url`, expected to hash to `hash`.
pub fn download_init(url: String, hash: String) -> (h: DownloadHandle)
    ensures
        h.wf(),
        !h.running,
        h.inner.downloaded == 0,
        !h.inner.finished,
        h.inner.total_size == 0,
        h.inner.data@ == Seq::<u8>::empty(),
        h.inner.url == url,
        h.inner.hash == hash,
        h.inner.err is None,
{
    DownloadHandle {
        inner: DownloadHandleRef {
            downloaded: 0,
            finished: false,
            total_size: 0,
            data: Vec::new(),
            url: url,
            hash: hash,
            err: None,
        },
        running: false,
    }
}

} // verus!
