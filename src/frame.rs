use vstd::prelude::*;

use crate::error::ConsoleError;

verus! {

/// Capacity in bytes of one console frame. The device side declares its frame
/// type with the same size.
pub const CONSOLE_BUFFER_MAX_SIZE: usize = 2020;

/// One fixed-capacity frame of a message: `size` leading bytes of `payload`
/// are occupied.
#[derive(Clone, Copy)]
pub struct DutSpiFrame {
    pub payload: [u8; CONSOLE_BUFFER_MAX_SIZE],
    pub size: usize,
}

impl DutSpiFrame {
    /// An empty frame, all bytes zero.
    pub fn new() -> (r: DutSpiFrame)
        ensures
            r.size == 0,
            r.payload@ == Seq::new(CONSOLE_BUFFER_MAX_SIZE as nat, |i: int| 0u8),
    {
        let r = DutSpiFrame { payload: [0u8; CONSOLE_BUFFER_MAX_SIZE], size: 0 };
        assert(r.payload@ =~= Seq::new(CONSOLE_BUFFER_MAX_SIZE as nat, |i: int| 0u8));
        r
    }

    /// The occupied bytes of the frame.
    pub open spec fn content(self) -> Seq<u8> {
        self.payload@.subrange(0, self.size as int)
    }
}

/// Number of frames a payload of `len` bytes is split into: `ceil(len / C)`,
/// and one empty frame for an empty payload.
pub open spec fn frames_required(len: nat) -> nat {
    if len == 0 {
        1
    } else {
        ((len + CONSOLE_BUFFER_MAX_SIZE - 1) as int / CONSOLE_BUFFER_MAX_SIZE as int) as nat
    }
}

/// End offset of the `i`-th chunk of a payload of `len` bytes.
pub open spec fn chunk_end(len: nat, i: int) -> int {
    if (i + 1) * CONSOLE_BUFFER_MAX_SIZE <= len {
        (i + 1) * CONSOLE_BUFFER_MAX_SIZE
    } else {
        len as int
    }
}

/// The `i`-th chunk of `p`: bytes `[i * C, min((i + 1) * C, len))`.
pub open spec fn chunk(p: Seq<u8>, i: int) -> Seq<u8> {
    p.subrange(i * CONSOLE_BUFFER_MAX_SIZE, chunk_end(p.len(), i))
}

/// The first `k` chunks of `p`, concatenated in order.
pub open spec fn joined_chunks(p: Seq<u8>, k: nat) -> Seq<u8>
    decreases k,
{
    if k == 0 {
        Seq::empty()
    } else {
        joined_chunks(p, (k - 1) as nat) + chunk(p, k - 1)
    }
}

/// The occupied bytes of the first `k` frames, concatenated in order.
pub open spec fn joined_contents(frames: Seq<DutSpiFrame>, k: nat) -> Seq<u8>
    decreases k,
{
    if k == 0 {
        Seq::empty()
    } else {
        joined_contents(frames, (k - 1) as nat) + frames[k - 1].content()
    }
}

proof fn lemma_frames_required_bounds(len: nat)
    ensures
        frames_required(len) >= 1,
        len > 0 ==> (frames_required(len) - 1) * CONSOLE_BUFFER_MAX_SIZE < len,
        len <= frames_required(len) * CONSOLE_BUFFER_MAX_SIZE,
{
}

proof fn lemma_joined_chunks_prefix(p: Seq<u8>, k: nat)
    requires
        k <= frames_required(p.len()),
    ensures
        joined_chunks(p, k) == p.subrange(0, if k == 0 { 0 } else { chunk_end(p.len(), k - 1) }),
    decreases k,
{
    lemma_frames_required_bounds(p.len());
    if k > 0 {
        lemma_joined_chunks_prefix(p, (k - 1) as nat);
        let prev = if k - 1 == 0 { 0 } else { chunk_end(p.len(), k - 2) };
        assert(prev == (k - 1) * CONSOLE_BUFFER_MAX_SIZE);
        assert(joined_chunks(p, k) =~= p.subrange(0, chunk_end(p.len(), k - 1)));
    }
}

/// Chunking law: a payload of length `L` is split into `frames_required(L)`
/// chunks (`ceil(L / C)`, and one for an empty payload); every chunk but the
/// last holds exactly `C` bytes, the last holds at most `C` and is empty only
/// for an empty payload; joining the chunks in order gives the payload back.
pub proof fn lemma_chunking(p: Seq<u8>)
    ensures
        frames_required(p.len()) >= 1,
        p.len() > 0 ==> (frames_required(p.len()) - 1) * CONSOLE_BUFFER_MAX_SIZE < p.len()
            <= frames_required(p.len()) * CONSOLE_BUFFER_MAX_SIZE,
        forall|i: int|
            0 <= i < frames_required(p.len()) - 1 ==> (#[trigger] chunk(p, i)).len()
                == CONSOLE_BUFFER_MAX_SIZE,
        chunk(p, frames_required(p.len()) - 1).len() <= CONSOLE_BUFFER_MAX_SIZE,
        p.len() > 0 ==> chunk(p, frames_required(p.len()) - 1).len() > 0,
        joined_chunks(p, frames_required(p.len())) == p,
{
    let n = frames_required(p.len());
    lemma_frames_required_bounds(p.len());
    lemma_joined_chunks_prefix(p, n);
    assert(p.subrange(0, chunk_end(p.len(), n - 1)) =~= p);
}

proof fn lemma_joined_contents_match(frames: Seq<DutSpiFrame>, p: Seq<u8>, k: nat)
    requires
        k <= frames.len(),
        forall|i: int| 0 <= i < k ==> (#[trigger] frames[i]).content() == chunk(p, i),
    ensures
        joined_contents(frames, k) == joined_chunks(p, k),
    decreases k,
{
    if k > 0 {
        lemma_joined_contents_match(frames, p, (k - 1) as nat);
        assert(frames[k - 1].content() == chunk(p, k - 1));
    }
}

/// What filling frames `old` with `payload` gives: `Ok(n)` exactly when
/// `old` holds at least `n = frames_required(len)` frames; frame `i < n` then
/// holds chunk `i` in its leading bytes and keeps the rest, and later frames
/// are unchanged. Otherwise the error names both counts and nothing changes.
pub open spec fn fill_outcome(
    old: Seq<DutSpiFrame>,
    new: Seq<DutSpiFrame>,
    payload: Seq<u8>,
    r: Result<usize, ConsoleError>,
) -> bool {
    &&& frames_required(payload.len()) <= old.len() <==> r is Ok
    &&& r is Err ==> r == Err::<usize, ConsoleError>(
        ConsoleError::InsufficientFrameCapacity {
            needed: frames_required(payload.len()) as usize,
            available: old.len() as usize,
        },
    ) && new == old
    &&& r is Ok ==> {
        let n = r->Ok_0;
        &&& n == frames_required(payload.len())
        &&& new.len() == old.len()
        &&& forall|i: int|
            0 <= i < n ==> {
                &&& (#[trigger] new[i]).size == chunk(payload, i).len()
                &&& new[i].content() == chunk(payload, i)
                &&& new[i].payload@.subrange(new[i].size as int, CONSOLE_BUFFER_MAX_SIZE as int)
                    == old[i].payload@.subrange(new[i].size as int, CONSOLE_BUFFER_MAX_SIZE as int)
            }
        &&& forall|i: int| n <= i < old.len() ==> new[i] == old[i]
        &&& joined_contents(new, n as nat) == payload
    }
}

/// Copies `payload` into consecutive frames of `frames`, `C` bytes per
/// frame, and returns how many frames were used. When `frames` holds fewer
/// frames than the payload needs, nothing is written and the error says so.
/// Bytes of a used frame past its new size, and frames past the used ones,
/// keep their old values.
pub fn fill_frames(frames: &mut Vec<DutSpiFrame>, payload: &[u8]) -> (r: Result<
    usize,
    ConsoleError,
>)
    ensures
        fill_outcome(old(frames)@, final(frames)@, payload@, r),
{
    let len = payload.len();
    let needed: usize = if len == 0 {
        1
    } else {
        len / CONSOLE_BUFFER_MAX_SIZE + if len % CONSOLE_BUFFER_MAX_SIZE == 0 { 0 } else { 1 }
    };
    assert(needed == frames_required(len as nat));
    if frames.len() < needed {
        return Err(
            ConsoleError::InsufficientFrameCapacity { needed: needed, available: frames.len() },
        );
    }
    proof {
        lemma_chunking(payload@);
    }
    let ghost old_frames = frames@;
    let mut i: usize = 0;
    while i < needed
        invariant
            needed == frames_required(len as nat),
            len == payload@.len(),
            needed <= frames@.len(),
            frames@.len() == old_frames.len(),
            (needed - 1) * CONSOLE_BUFFER_MAX_SIZE <= len <= needed * CONSOLE_BUFFER_MAX_SIZE,
            i <= needed,
            forall|k: int|
                0 <= k < i ==> {
                    &&& (#[trigger] frames@[k]).size == chunk(payload@, k).len()
                    &&& frames@[k].content() == chunk(payload@, k)
                    &&& frames@[k].payload@.subrange(
                        frames@[k].size as int,
                        CONSOLE_BUFFER_MAX_SIZE as int,
                    ) == old_frames[k].payload@.subrange(
                        frames@[k].size as int,
                        CONSOLE_BUFFER_MAX_SIZE as int,
                    )
                },
            forall|k: int| i <= k < frames@.len() ==> frames@[k] == old_frames[k],
        decreases needed - i,
    {
        let start: usize = i * CONSOLE_BUFFER_MAX_SIZE;
        let end: usize = if len - start >= CONSOLE_BUFFER_MAX_SIZE {
            start + CONSOLE_BUFFER_MAX_SIZE
        } else {
            len
        };
        assert(end == chunk_end(len as nat, i as int));
        let mut f = frames[i];
        let ghost before = f;
        let mut j: usize = start;
        while j < end
            invariant
                start <= j <= end,
                end <= len,
                end - start <= CONSOLE_BUFFER_MAX_SIZE,
                len == payload@.len(),
                f.size == before.size,
                forall|k: int| 0 <= k < j - start ==> f.payload@[k] == payload@[start + k],
                forall|k: int| j - start <= k < CONSOLE_BUFFER_MAX_SIZE ==> f.payload@[k]
                    == before.payload@[k],
            decreases end - j,
        {
            f.payload[j - start] = payload[j];
            j = j + 1;
        }
        f.size = end - start;
        assert(f.content() =~= chunk(payload@, i as int));
        assert(f.payload@.subrange(f.size as int, CONSOLE_BUFFER_MAX_SIZE as int)
            =~= before.payload@.subrange(f.size as int, CONSOLE_BUFFER_MAX_SIZE as int));
        frames.set(i, f);
        i = i + 1;
    }
    proof {
        lemma_joined_contents_match(frames@, payload@, needed as nat);
    }
    Ok(needed)
}

} // verus!
