//! The process-wide download registry: a table from content hash to download
//! session, enforcing at most one active download per key.

use vstd::prelude::*;

use crate::session::{
    buffer_step, download_init, err_view, validate_result, DownloadHandle, DownloadHandleRef,
    DownloadInfo,
};
use crate::DownloadError;

verus! {

/// The registry: every download currently known, each under its own key (the
/// hex-encoded expected digest). Keys are unique; no order is meaningful.
pub struct DownloadRegistry {
    /// The sessions, one per key.
    pub entries: Vec<DownloadHandle>,
}

/// The session a successful creation inserts: fresh counters, an empty
/// buffer, no error, and a launched task.
pub open spec fn fresh_session(h: DownloadHandle, url: Seq<char>, key: Seq<char>) -> bool {
    &&& h.running
    &&& h.inner.downloaded == 0
    &&& !h.inner.finished
    &&& h.inner.total_size == 0
    &&& h.inner.data@ == Seq::<u8>::empty()
    &&& h.inner.url@ == url
    &&& h.inner.hash@ == key
    &&& h.inner.err is None
}

/// Every key other than `key` is present in `post` exactly as in `pre`, with
/// the same session.
pub open spec fn unchanged_except(
    pre: DownloadRegistry,
    post: DownloadRegistry,
    key: Seq<char>,
) -> bool {
    forall|k: Seq<char>|
        k != key ==> (#[trigger] post.spec_contains(k)) == pre.spec_contains(k) && (
        pre.spec_contains(k) ==> post.spec_get(k) == pre.spec_get(k))
}

/// `post` is `pre` after a successful creation for `key`: the new session is
/// present and fresh, and every other key is untouched.
pub open spec fn created_from(
    pre: DownloadRegistry,
    post: DownloadRegistry,
    url: Seq<char>,
    key: Seq<char>,
) -> bool {
    &&& post.spec_contains(key)
    &&& fresh_session(post.spec_get(key), url, key)
    &&& unchanged_except(pre, post, key)
}

/// `post` is `pre` after a termination of `key`: the key is gone, and every
/// other key is untouched.
pub open spec fn removed_from(pre: DownloadRegistry, post: DownloadRegistry, key: Seq<char>) -> bool {
    &&& !post.spec_contains(key)
    &&& unchanged_except(pre, post, key)
}

impl DownloadRegistry {
    /// Whether a session is registered under `key`.
    pub open spec fn spec_contains(self, key: Seq<char>) -> bool {
        exists|i: int|
            0 <= i < self.entries@.len() && (#[trigger] self.entries@[i]).inner.hash@ == key
    }

    /// The position of the session registered under `key`.
    pub open spec fn index_of(self, key: Seq<char>) -> int {
        choose|i: int|
            0 <= i < self.entries@.len() && (#[trigger] self.entries@[i]).inner.hash@ == key
    }

    /// The session registered under `key`.
    pub open spec fn spec_get(self, key: Seq<char>) -> DownloadHandle {
        self.entries@[self.index_of(key)]
    }

    /// Keys are unique and every session's counters are consistent.
    pub open spec fn wf(self) -> bool {
        &&& forall|i: int, j: int|
            0 <= i < j < self.entries@.len() ==> (#[trigger] self.entries@[i]).inner.hash@ != (
            #[trigger] self.entries@[j]).inner.hash@
        &&& forall|i: int| 0 <= i < self.entries@.len() ==> (#[trigger] self.entries@[i]).wf()
    }

    /// In a well-formed registry, a key found at position `i` is found only
    /// there, so `index_of` picks `i`.
    proof fn lemma_index_of_unique(self, key: Seq<char>, i: int)
        requires
            self.wf(),
            0 <= i < self.entries@.len(),
            self.entries@[i].inner.hash@ == key,
        ensures
            self.spec_contains(key),
            self.index_of(key) == i,
            self.spec_get(key) == self.entries@[i],
    {
        assert(self.spec_contains(key));
        let j = self.index_of(key);
        assert(0 <= j < self.entries@.len() && self.entries@[j].inner.hash@ == key);
        if i < j {
            assert(self.entries@[i].inner.hash@ != self.entries@[j].inner.hash@);
        } else if j < i {
            assert(self.entries@[j].inner.hash@ != self.entries@[i].inner.hash@);
        }
    }

    /// An empty registry, containing no key at all.
    pub fn new() -> (r: DownloadRegistry)
        ensures
            r.wf(),
            forall|k: Seq<char>| !r.spec_contains(k),
    {
        DownloadRegistry { entries: Vec::new() }
    }

    /// Finds the position of the session registered under `key`, if any.
    fn find(&self, key: &String) -> (r: Option<usize>)
        requires
            self.wf(),
        ensures
            match r {
                Some(i) => {
                    &&& i < self.entries@.len()
                    &&& self.entries@[i as int].inner.hash@ == key@
                    &&& self.spec_contains(key@)
                    &&& self.index_of(key@) == i
                },
                None => !self.spec_contains(key@),
            },
    {
        let mut i: usize = 0;
        while i < self.entries.len()
            invariant
                0 <= i <= self.entries@.len(),
                forall|j: int| 0 <= j < i ==> (#[trigger] self.entries@[j]).inner.hash@ != key@,
                self.wf(),
            decreases self.entries@.len() - i,
        {
            if self.entries[i].inner.hash == *key {
                proof {
                    self.lemma_index_of_unique(key@, i as int);
                }
                return Some(i);
            }
            i = i + 1;
        }
        None
    }

    /// Registers and starts a new download of `url` under the key `hash`.
    /// Fails with the duplicate-key error, touching nothing, when the key is
    /// already taken.
    pub fn el_download(&mut self, url: String, hash: String) -> (r: Result<(), DownloadError>)
        requires
            old(self).wf(),
        ensures
            final(self).wf(),
            r is Ok <==> !old(self).spec_contains(hash@),
            r is Err ==> r == Err::<(), DownloadError>(DownloadError::DuplicateKey) && *final(self)
                == *old(self),
            r is Ok ==> created_from(*old(self), *final(self), url@, hash@),
    {
        let ghost key = hash@;
        let ghost u = url@;
        if self.find(&hash).is_some() {
            return Err(DownloadError::DuplicateKey);
        }
        let ghost pre = *self;
        let mut dhandle = download_init(url, hash);
        dhandle.download_start();
        let ghost dh = dhandle;
        self.entries.push(dhandle);
        proof {
            self.lemma_after_push(pre, dh, u, key);
        }
        Ok(())
    }

    /// After pushing a fresh session for an absent key, the registry is well
    /// formed, holds the fresh session under its key, and keeps every other
    /// key untouched.
    proof fn lemma_after_push(
        self,
        pre: DownloadRegistry,
        dh: DownloadHandle,
        url: Seq<char>,
        key: Seq<char>,
    )
        requires
            pre.wf(),
            !pre.spec_contains(key),
            fresh_session(dh, url, key),
            dh.wf(),
            self.entries@ == pre.entries@.push(dh),
        ensures
            self.wf(),
            created_from(pre, self, url, key),
    {
        let n = pre.entries@.len() as int;
        assert forall|i: int| 0 <= i < n implies (#[trigger] pre.entries@[i]).inner.hash@
            != key by {
            if pre.entries@[i].inner.hash@ == key {
                assert(pre.spec_contains(key));
            }
        }
        assert forall|i: int, j: int| 0 <= i < j < self.entries@.len() implies (
        #[trigger] self.entries@[i]).inner.hash@ != (#[trigger] self.entries@[j]).inner.hash@ by {
            if j < n {
                assert(pre.entries@[i].inner.hash@ != pre.entries@[j].inner.hash@);
            } else {
                assert(self.entries@[j] == dh);
                assert(pre.entries@[i].inner.hash@ != key);
            }
        }
        assert forall|i: int| 0 <= i < self.entries@.len() implies (
        #[trigger] self.entries@[i]).wf() by {
            if i < n {
                assert(pre.entries@[i].wf());
            }
        }
        assert(self.entries@[n] == dh);
        self.lemma_index_of_unique(key, n);
        assert forall|k: Seq<char>| k != key implies (#[trigger] self.spec_contains(k))
            == pre.spec_contains(k) && (pre.spec_contains(k) ==> self.spec_get(k) == pre.spec_get(
            k,
        )) by {
            if pre.spec_contains(k) {
                let i = pre.index_of(k);
                assert(0 <= i < n && pre.entries@[i].inner.hash@ == k);
                assert(self.entries@[i] == pre.entries@[i]);
                self.lemma_index_of_unique(k, i);
                pre.lemma_index_of_unique(k, i);
            } else {
                if self.spec_contains(k) {
                    let i = self.index_of(k);
                    assert(0 <= i < n + 1 && self.entries@[i].inner.hash@ == k);
                    if i < n {
                        assert(pre.entries@[i] == self.entries@[i]);
                        assert(pre.spec_contains(k));
                    } else {
                        assert(self.entries@[i] == dh);
                    }
                }
            }
        }
    }

    /// A snapshot of the progress counters of the download under `hash`, or
    /// the not-found error when the key is absent.
    pub fn el_download_progress(&self, hash: String) -> (r: Result<DownloadInfo, DownloadError>)
        requires
            self.wf(),
        ensures
            r is Ok <==> self.spec_contains(hash@),
            r is Err ==> r == Err::<DownloadInfo, DownloadError>(DownloadError::NotFound),
            r matches Ok(info) ==> {
                let s = self.spec_get(hash@).inner;
                &&& info.downloaded == s.downloaded
                &&& info.finished == s.finished
                &&& info.total_size == s.total_size
                &&& err_view(info.err) == err_view(s.err)
            },
    {
        match self.find(&hash) {
            None => Err(DownloadError::NotFound),
            Some(i) => Ok(self.entries[i].download_progress()),
        }
    }

    /// Removes the download under `hash` from the registry and terminates
    /// its task, whatever state it was in; the not-found error when the key
    /// is absent.
    pub fn el_download_terminate(&mut self, hash: String) -> (r: Result<(), DownloadError>)
        requires
            old(self).wf(),
        ensures
            final(self).wf(),
            r is Ok <==> old(self).spec_contains(hash@),
            r is Err ==> r == Err::<(), DownloadError>(DownloadError::NotFound) && *final(self)
                == *old(self),
            r is Ok ==> removed_from(*old(self), *final(self), hash@),
    {
        let idx = match self.find(&hash) {
            None => {
                return Err(DownloadError::NotFound);
            },
            Some(i) => i,
        };
        let ghost pre = *self;
        let mut dhandle = self.entries.remove(idx);
        dhandle.download_terminate();
        proof {
            self.lemma_after_remove(pre, idx as int, hash@);
        }
        Ok(())
    }

    /// After removing the one entry that holds `key`, the registry is well
    /// formed, no longer holds `key`, and keeps every other key untouched.
    proof fn lemma_after_remove(self, pre: DownloadRegistry, idx: int, key: Seq<char>)
        requires
            pre.wf(),
            0 <= idx < pre.entries@.len(),
            pre.entries@[idx].inner.hash@ == key,
            self.entries@ == pre.entries@.remove(idx),
        ensures
            self.wf(),
            removed_from(pre, self, key),
    {
        let n = pre.entries@.len() as int;
        // Where each surviving entry came from.
        assert forall|i: int| 0 <= i < n - 1 implies #[trigger] self.entries@[i] == (
            if i < idx {
                pre.entries@[i]
            } else {
                pre.entries@[i + 1]
            }
        ) by {}
        assert forall|i: int, j: int| 0 <= i < j < self.entries@.len() implies (
        #[trigger] self.entries@[i]).inner.hash@ != (#[trigger] self.entries@[j]).inner.hash@ by {
            let pi: int = if i < idx {
                i
            } else {
                i + 1
            };
            let pj: int = if j < idx {
                j
            } else {
                j + 1
            };
            assert(pre.entries@[pi].inner.hash@ != pre.entries@[pj].inner.hash@);
        }
        assert forall|i: int| 0 <= i < self.entries@.len() implies (
        #[trigger] self.entries@[i]).wf() by {
            let pi: int = if i < idx {
                i
            } else {
                i + 1
            };
            assert(pre.entries@[pi].wf());
        }
        if self.spec_contains(key) {
            let i = self.index_of(key);
            assert(0 <= i < n - 1 && self.entries@[i].inner.hash@ == key);
            let pi: int = if i < idx {
                i
            } else {
                i + 1
            };
            assert(pre.entries@[pi].inner.hash@ == key);
            pre.lemma_index_of_unique(key, pi);
            pre.lemma_index_of_unique(key, idx);
            assert(false);
        }
        assert forall|k: Seq<char>| k != key implies (#[trigger] self.spec_contains(k))
            == pre.spec_contains(k) && (pre.spec_contains(k) ==> self.spec_get(k) == pre.spec_get(
            k,
        )) by {
            if pre.spec_contains(k) {
                let i = pre.index_of(k);
                assert(0 <= i < n && pre.entries@[i].inner.hash@ == k);
                pre.lemma_index_of_unique(k, i);
                assert(i != idx);
                let si: int = if i < idx {
                    i
                } else {
                    i - 1
                };
                assert(self.entries@[si] == pre.entries@[i]);
                self.lemma_index_of_unique(k, si);
            } else {
                if self.spec_contains(k) {
                    let i = self.index_of(k);
                    assert(0 <= i < n - 1 && self.entries@[i].inner.hash@ == k);
                    let pi: int = if i < idx {
                        i
                    } else {
                        i + 1
                    };
                    assert(pre.entries@[pi].inner.hash@ == k);
                    assert(pre.spec_contains(k));
                }
            }
        }
    }

    /// After replacing the entry at `idx` by one with the same key, the
    /// registry is well formed, holds the replacement under that key, and
    /// keeps every other key untouched.
    proof fn lemma_after_update(self, pre: DownloadRegistry, idx: int, h: DownloadHandle)
        requires
            pre.wf(),
            0 <= idx < pre.entries@.len(),
            h.inner.hash@ == pre.entries@[idx].inner.hash@,
            h.wf(),
            self.entries@ == pre.entries@.update(idx, h),
        ensures
            self.wf(),
            self.spec_contains(pre.entries@[idx].inner.hash@),
            self.spec_get(pre.entries@[idx].inner.hash@) == h,
            unchanged_except(pre, self, pre.entries@[idx].inner.hash@),
    {
        let key = pre.entries@[idx].inner.hash@;
        assert forall|i: int, j: int| 0 <= i < j < self.entries@.len() implies (
        #[trigger] self.entries@[i]).inner.hash@ != (#[trigger] self.entries@[j]).inner.hash@ by {
            assert(pre.entries@[i].inner.hash@ != pre.entries@[j].inner.hash@);
        }
        assert forall|i: int| 0 <= i < self.entries@.len() implies (
        #[trigger] self.entries@[i]).wf() by {
            if i != idx {
                assert(pre.entries@[i].wf());
            }
        }
        self.lemma_index_of_unique(key, idx);
        assert forall|k: Seq<char>| k != key implies (#[trigger] self.spec_contains(k))
            == pre.spec_contains(k) && (pre.spec_contains(k) ==> self.spec_get(k) == pre.spec_get(
            k,
        )) by {
            if pre.spec_contains(k) {
                let i = pre.index_of(k);
                assert(0 <= i < pre.entries@.len() && pre.entries@[i].inner.hash@ == k);
                assert(i != idx);
                assert(self.entries@[i] == pre.entries@[i]);
                self.lemma_index_of_unique(k, i);
                pre.lemma_index_of_unique(k, i);
            } else {
                if self.spec_contains(k) {
                    let i = self.index_of(k);
                    assert(0 <= i < self.entries@.len() && self.entries@[i].inner.hash@ == k);
                    assert(i != idx);
                    assert(pre.entries@[i] == self.entries@[i]);
                    assert(pre.spec_contains(k));
                }
            }
        }
    }

    /// Records the size the server declared for the download under `hash`.
    /// A no-op on a buffer already in a terminal state; the not-found error
    /// when the key is absent.
    pub fn record_total_size(&mut self, hash: &String, n: u64) -> (r: Result<(), DownloadError>)
        requires
            old(self).wf(),
        ensures
            final(self).wf(),
            r is Ok <==> old(self).spec_contains(hash@),
            r is Err ==> r == Err::<(), DownloadError>(DownloadError::NotFound) && *final(self)
                == *old(self),
            r is Ok ==> {
                let s0 = old(self).spec_get(hash@);
                let s1 = final(self).spec_get(hash@);
                &&& final(self).spec_contains(hash@)
                &&& unchanged_except(*old(self), *final(self), hash@)
                &&& s1.running == s0.running
                &&& buffer_step(s0.inner, s1.inner)
                &&& s1.inner.downloaded >= s0.inner.downloaded
                &&& (s0.inner.is_terminal() ==> s1 == s0)
                &&& (!s0.inner.is_terminal() ==> s1.inner == (DownloadHandleRef {
                    total_size: n,
                    ..s0.inner
                }))
            },
    {
        let idx = match self.find(hash) {
            None => {
                return Err(DownloadError::NotFound);
            },
            Some(i) => i,
        };
        let ghost pre = *self;
        let mut h = self.entries.remove(idx);
        if !h.inner.finished && h.inner.err.is_none() {
            h.inner.set_total_size(n);
        }
        let ghost hg = h;
        self.entries.insert(idx, h);
        proof {
            assert(self.entries@ =~= pre.entries@.update(idx as int, hg));
            pre.lemma_index_of_unique(hash@, idx as int);
            self.lemma_after_update(pre, idx as int, hg);
        }
        Ok(())
    }

    /// Appends one received chunk to the buffer of the download under
    /// `hash`. A no-op on a buffer already in a terminal state; the
    /// not-found error when the key is absent.
    pub fn append_chunk(&mut self, hash: &String, chunk: &Vec<u8>) -> (r: Result<(), DownloadError>)
        requires
            old(self).wf(),
            old(self).spec_contains(hash@) && !old(self).spec_get(hash@).inner.is_terminal()
                ==> old(self).spec_get(hash@).inner.downloaded + chunk@.len() <= usize::MAX,
        ensures
            final(self).wf(),
            r is Ok <==> old(self).spec_contains(hash@),
            r is Err ==> r == Err::<(), DownloadError>(DownloadError::NotFound) && *final(self)
                == *old(self),
            r is Ok ==> {
                let s0 = old(self).spec_get(hash@);
                let s1 = final(self).spec_get(hash@);
                &&& final(self).spec_contains(hash@)
                &&& unchanged_except(*old(self), *final(self), hash@)
                &&& s1.running == s0.running
                &&& buffer_step(s0.inner, s1.inner)
                &&& s1.inner.downloaded >= s0.inner.downloaded
                &&& (s0.inner.is_terminal() ==> s1 == s0)
                &&& (!s0.inner.is_terminal() ==> {
                    &&& s1.inner.data@ == s0.inner.data@ + chunk@
                    &&& s1.inner.downloaded == s0.inner.downloaded + chunk@.len()
                    &&& s1.inner == (DownloadHandleRef {
                        downloaded: s1.inner.downloaded,
                        data: s1.inner.data,
                        ..s0.inner
                    })
                })
            },
    {
        let idx = match self.find(hash) {
            None => {
                return Err(DownloadError::NotFound);
            },
            Some(i) => i,
        };
        let ghost pre = *self;
        let mut h = self.entries.remove(idx);
        if !h.inner.finished && h.inner.err.is_none() {
            h.inner.append_chunk(chunk);
        }
        let ghost hg = h;
        self.entries.insert(idx, h);
        proof {
            assert(self.entries@ =~= pre.entries@.update(idx as int, hg));
            pre.lemma_index_of_unique(hash@, idx as int);
            self.lemma_after_update(pre, idx as int, hg);
        }
        Ok(())
    }

    /// Marks a clean end of stream for the download under `hash`. A no-op on
    /// a buffer already in a terminal state; the not-found error when the
    /// key is absent.
    pub fn mark_finished(&mut self, hash: &String) -> (r: Result<(), DownloadError>)
        requires
            old(self).wf(),
        ensures
            final(self).wf(),
            r is Ok <==> old(self).spec_contains(hash@),
            r is Err ==> r == Err::<(), DownloadError>(DownloadError::NotFound) && *final(self)
                == *old(self),
            r is Ok ==> {
                let s0 = old(self).spec_get(hash@);
                let s1 = final(self).spec_get(hash@);
                &&& final(self).spec_contains(hash@)
                &&& unchanged_except(*old(self), *final(self), hash@)
                &&& s1.running == s0.running
                &&& buffer_step(s0.inner, s1.inner)
                &&& s1.inner.downloaded >= s0.inner.downloaded
                &&& (s0.inner.is_terminal() ==> s1 == s0)
                &&& (!s0.inner.is_terminal() ==> s1.inner == (DownloadHandleRef {
                    finished: true,
                    ..s0.inner
                }))
            },
    {
        let idx = match self.find(hash) {
            None => {
                return Err(DownloadError::NotFound);
            },
            Some(i) => i,
        };
        let ghost pre = *self;
        let mut h = self.entries.remove(idx);
        if !h.inner.finished && h.inner.err.is_none() {
            h.inner.mark_finished();
        }
        let ghost hg = h;
        self.entries.insert(idx, h);
        proof {
            assert(self.entries@ =~= pre.entries@.update(idx as int, hg));
            pre.lemma_index_of_unique(hash@, idx as int);
            self.lemma_after_update(pre, idx as int, hg);
        }
        Ok(())
    }

    /// Records a transport failure for the download under `hash`. A no-op on
    /// a buffer already in a terminal state; the not-found error when the
    /// key is absent.
    pub fn record_failure(&mut self, hash: &String, msg: String) -> (r: Result<(), DownloadError>)
        requires
            old(self).wf(),
        ensures
            final(self).wf(),
            r is Ok <==> old(self).spec_contains(hash@),
            r is Err ==> r == Err::<(), DownloadError>(DownloadError::NotFound) && *final(self)
                == *old(self),
            r is Ok ==> {
                let s0 = old(self).spec_get(hash@);
                let s1 = final(self).spec_get(hash@);
                &&& final(self).spec_contains(hash@)
                &&& unchanged_except(*old(self), *final(self), hash@)
                &&& s1.running == s0.running
                &&& buffer_step(s0.inner, s1.inner)
                &&& s1.inner.downloaded >= s0.inner.downloaded
                &&& (s0.inner.is_terminal() ==> s1 == s0)
                &&& (!s0.inner.is_terminal() ==> s1.inner == (DownloadHandleRef {
                    err: Some(msg),
                    ..s0.inner
                }))
            },
    {
        let idx = match self.find(hash) {
            None => {
                return Err(DownloadError::NotFound);
            },
            Some(i) => i,
        };
        let ghost pre = *self;
        let mut h = self.entries.remove(idx);
        if !h.inner.finished && h.inner.err.is_none() {
            h.inner.record_failure(msg);
        }
        let ghost hg = h;
        self.entries.insert(idx, h);
        proof {
            assert(self.entries@ =~= pre.entries@.update(idx as int, hg));
            pre.lemma_index_of_unique(hash@, idx as int);
            self.lemma_after_update(pre, idx as int, hg);
        }
        Ok(())
    }

    /// Verifies the finished download under `hash` against its expected
    /// digest; the not-found error when the key is absent.
    pub fn el_download_validate_sha256(&self, hash: String) -> (r: Result<bool, DownloadError>)
        requires
            self.wf(),
        ensures
            !self.spec_contains(hash@) ==> r == Err::<bool, DownloadError>(DownloadError::NotFound),
            self.spec_contains(hash@) ==> r == validate_result(self.spec_get(hash@).inner),
    {
        match self.find(&hash) {
            None => Err(DownloadError::NotFound),
            Some(i) => self.entries[i].validate_sha256(),
        }
    }

    /// A copy of the bytes received so far for the download under `hash`,
    /// complete or not; the not-found error when the key is absent.
    pub fn el_download_getfile(&self, hash: String) -> (r: Result<Vec<u8>, DownloadError>)
        requires
            self.wf(),
        ensures
            r is Ok <==> self.spec_contains(hash@),
            r is Err ==> r == Err::<Vec<u8>, DownloadError>(DownloadError::NotFound),
            r matches Ok(v) ==> v@ == self.spec_get(hash@).inner.data@,
    {
        match self.find(&hash) {
            None => Err(DownloadError::NotFound),
            Some(i) => self.entries[i].getfile(),
        }
    }
}

} // verus!
