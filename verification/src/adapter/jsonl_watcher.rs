//! What the session-log watcher decides: how much of a growing log to read
//! next, how far a read chunk may be consumed, and which log is the newest.

use vstd::prelude::*;

verus! {

/// Seconds between two looks at the session log.
pub const POLL_INTERVAL_SECS: u64 = 2;

/// At most this many bytes are read in one look.
pub const MAX_READ_CHUNK: u64 = 10 * 1024 * 1024;

/// How many directory levels below the project's log directory are searched.
pub const MAX_SCAN_DEPTH: u32 = 3;

/// How many bytes to read next from a log of `file_size` bytes of which
/// `bytes_read` are consumed: none when nothing is new, else what is new,
/// capped at `MAX_READ_CHUNK`.
pub fn read_window(file_size: u64, bytes_read: u64) -> (r: Option<u64>)
    ensures
        match r {
            Some(n) => bytes_read < file_size && n == if file_size - bytes_read
                < MAX_READ_CHUNK {
                file_size - bytes_read
            } else {
                MAX_READ_CHUNK as int
            },
            None => file_size <= bytes_read,
        },
{
    if file_size <= bytes_read {
        None
    } else {
        let n = file_size - bytes_read;
        if n < MAX_READ_CHUNK {
            Some(n)
        } else {
            Some(MAX_READ_CHUNK)
        }
    }
}

/// `i` is the last position of a newline in `buf`.
pub open spec fn last_newline_at(buf: Seq<u8>, i: int) -> bool {
    0 <= i < buf.len() && buf[i] == 10u8 && forall|j: int| i < j < buf.len() ==> buf[j] != 10u8
}

/// How far a chunk read at offset `bytes_read` can be consumed: up to and
/// including its last newline, so that a line still being written is read
/// again whole. Gives the new offset and the length consumed; none when the
/// chunk holds no complete line.
pub fn consume_chunk(bytes_read: u64, chunk: &[u8]) -> (r: Option<(u64, usize)>)
    requires
        bytes_read + chunk@.len() <= u64::MAX,
    ensures
        match r {
            Some((offset, used)) => last_newline_at(chunk@, used - 1) && offset == bytes_read
                + used,
            None => forall|j: int| 0 <= j < chunk@.len() ==> chunk@[j] != 10u8,
        },
{
    let mut i: usize = chunk.len();
    while i > 0
        invariant
            i <= chunk@.len(),
            bytes_read + chunk@.len() <= u64::MAX,
            forall|j: int| i <= j < chunk@.len() ==> chunk@[j] != 10u8,
        decreases i,
    {
        if chunk[i - 1] == 10u8 {
            return Some((bytes_read + i as u64, i));
        }
        i = i - 1;
    }
    None
}

/// Index of the newest of several logs by modification time: the first of
/// those with the greatest time.
pub fn newest_index(mtimes: &Vec<i128>) -> (r: Option<usize>)
    ensures
        match r {
            Some(i) => i < mtimes@.len() && (forall|j: int| 0 <= j < i ==> mtimes@[j] < mtimes@[i as int])
                && (forall|j: int| i < j < mtimes@.len() ==> mtimes@[j] <= mtimes@[i as int]),
            None => mtimes@.len() == 0,
        },
{
    if mtimes.len() == 0 {
        return None;
    }
    let mut best: usize = 0;
    let mut k: usize = 1;
    while k < mtimes.len()
        invariant
            0 < k <= mtimes@.len(),
            best < k,
            forall|j: int| 0 <= j < best ==> mtimes@[j] < mtimes@[best as int],
            forall|j: int| best < j < k ==> mtimes@[j] <= mtimes@[best as int],
        decreases mtimes@.len() - k,
    {
        if mtimes[k] > mtimes[best] {
            best = k;
        }
        k = k + 1;
    }
    Some(best)
}

} // verus!
