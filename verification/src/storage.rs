//! The storage manager's decisions: where a pollen is saved, which stored
//! files the retention policy deletes, and the header stripping applied to a
//! downloaded byte stream.
//!
//! The surrounding application performs the actual file writes, reads and
//! deletions; everything that decides is here.

use vstd::prelude::*;
use vstd::string::{StrSliceExecFns, StringExecFns};

verus! {

/// Byte count of the fixed, origin-defined, non-payload header carried by
/// the first chunk of a downloaded artifact stream.
pub const ORIGIN_HEADER_LEN: usize = 512;

/// The app folder under the user's home directory, as a path string.
pub fn get_app_folder_path(home: &str) -> (r: String)
    ensures
        r@ == home@ + "/.pollen_wall"@,
{
    let mut r = home.to_owned();
    r.append("/.pollen_wall");
    r
}

/// The local file name of a persisted artifact: the pollen identifier and
/// the artifact's original name, joined by an underscore.
pub fn artifact_file_name(pollen_uuid: &str, name: &str) -> (r: String)
    ensures
        r@ == pollen_uuid@ + "_"@ + name@,
{
    let mut r = pollen_uuid.to_owned();
    r.append("_");
    r.append(name);
    r
}

/// One entry of the storage directory, with its recorded creation time.
#[derive(Debug)]
pub struct StoredPollen {
    pub name: String,
    pub created_millis: u64,
}

/// Mathematical image of a [`StoredPollen`].
#[verifier::ext_equal]
pub struct StoredPollenView {
    pub name: Seq<char>,
    pub created_millis: u64,
}

impl View for StoredPollen {
    type V = StoredPollenView;

    open spec fn view(&self) -> StoredPollenView {
        StoredPollenView { name: self.name@, created_millis: self.created_millis }
    }
}

/// The retention policy: after an artifact with creation time
/// `current_creation_millis` was persisted, exactly the entries strictly
/// older than it are to be deleted. In particular every previously persisted
/// artifact with an earlier creation time is selected, and the newly
/// persisted artifact itself never is. The returned indices are strictly
/// increasing.
pub fn select_stale(entries: &Vec<StoredPollen>, current_creation_millis: u64) -> (r: Vec<usize>)
    ensures
        forall|k: int|
            0 <= k < r@.len() ==> (#[trigger] r@[k]) < entries@.len() && entries@[r@[k] as int]@.created_millis
                < current_creation_millis,
        forall|j: int|
            0 <= j < entries@.len() && (#[trigger] entries@[j]@.created_millis)
                < current_creation_millis ==> r@.contains(j as usize),
        forall|k1: int, k2: int| 0 <= k1 < k2 < r@.len() ==> r@[k1] < r@[k2],
{
    let n = entries.len();
    let mut r: Vec<usize> = Vec::new();
    let mut j: usize = 0;
    while j < n
        invariant
            n == entries@.len(),
            0 <= j <= n,
            forall|k: int|
                0 <= k < r@.len() ==> (#[trigger] r@[k]) < j && entries@[r@[k] as int]@.created_millis
                    < current_creation_millis,
            forall|p: int|
                0 <= p < j && (#[trigger] entries@[p]@.created_millis) < current_creation_millis
                    ==> r@.contains(p as usize),
            forall|k1: int, k2: int| 0 <= k1 < k2 < r@.len() ==> r@[k1] < r@[k2],
        decreases n - j,
    {
        if entries[j].created_millis < current_creation_millis {
            let ghost old_r = r@;
            r.push(j);
            proof {
                assert(r@[r@.len() - 1] == j);
                assert(forall|p: int|
                    0 <= p < old_r.len() ==> r@[p] == old_r[p]);
                assert(forall|y: usize| old_r.contains(y) ==> r@.contains(y)) by {
                    assert forall|y: usize| old_r.contains(y) implies r@.contains(y) by {
                        let w = choose|w: int| 0 <= w < old_r.len() && old_r[w] == y;
                        assert(r@[w] == y);
                    }
                }
            }
        }
        j = j + 1;
    }
    r
}

/// A stateful transform over the chunks of one downloaded artifact stream:
/// the first chunk carries the fixed origin header, which is stripped;
/// every later chunk passes through unchanged.
pub struct HeaderStrip {
    started: bool,
}

impl View for HeaderStrip {
    type V = bool;

    closed spec fn view(&self) -> bool {
        self.started
    }
}

impl HeaderStrip {
    /// A transform that has seen no chunk yet.
    pub fn new() -> (r: HeaderStrip)
        ensures
            r@ == false,
    {
        HeaderStrip { started: false }
    }

    /// The payload bytes of the next chunk: on the first chunk everything
    /// after the origin header (all of a too-short first chunk is header),
    /// afterwards the chunk as it came.
    pub fn transform(&mut self, chunk: &Vec<u8>) -> (out: Vec<u8>)
        ensures
            final(self)@ == true,
            old(self)@ ==> out@ == chunk@,
            !old(self)@ ==> out@ == chunk@.skip(
                if chunk@.len() < ORIGIN_HEADER_LEN {
                    chunk@.len() as int
                } else {
                    ORIGIN_HEADER_LEN as int
                },
            ),
    {
        let start: usize = if self.started {
            0
        } else if chunk.len() < ORIGIN_HEADER_LEN {
            chunk.len()
        } else {
            ORIGIN_HEADER_LEN
        };
        self.started = true;
        let n = chunk.len();
        let mut out: Vec<u8> = Vec::new();
        let mut i: usize = start;
        while i < n
            invariant
                n == chunk@.len(),
                start <= i <= n,
                out@ == chunk@.subrange(start as int, i as int),
            decreases n - i,
        {
            let b = chunk[i];
            out.push(b);
            proof {
                assert(chunk@.subrange(start as int, i + 1 as int) =~= chunk@.subrange(
                    start as int,
                    i as int,
                ).push(chunk@[i as int]));
            }
            i = i + 1;
        }
        proof {
            assert(out@ =~= chunk@.skip(start as int));
        }
        out
    }
}

} // verus!
