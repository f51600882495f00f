//! The samples of a track: where each lies in the file, how many bytes it takes and
//! how long it lasts, worked out from the tables of the track's sample table box.
use vstd::prelude::*;
use vstd::std_specs::convert::FromSpecImpl;
use crate::quicktime::movie::Moov;
use crate::quicktime::sample_table::{
    Co64, Co64Model, SampleToChunk, Stco, StcoModel, StblModel, TimeToSample,
};
use crate::quicktime::track::{Trak, TrakModel};
use crate::time::{Duration, Timescale};

verus! {

/// One sample: the smallest piece of media that can be decoded by itself.
#[derive(Clone, Copy, Debug, PartialEq, Eq)]
pub struct Sample {
    /// How long the sample lasts.
    pub duration: Duration,
    /// The offset of its first byte in the file.
    pub offset: usize,
    /// The number of its bytes.
    pub size: usize,
}

/// What is known of a track beyond its boxes.
#[derive(Clone, Debug, PartialEq, Eq)]
pub struct TrackMetadata {
    pub samples: Vec<Sample>,
}

/// Why the samples of a track cannot be listed.
#[derive(Clone, Copy, Debug, PartialEq, Eq)]
pub enum SamplesError {
    /// The track has neither of the two chunk offset tables.
    Co64OrStcoNotFound,
    /// The track has samples, and a time scale of zero ticks to the second.
    ZeroTimeScale,
    /// The tables do not describe the same samples: they differ in how many there
    /// are, the runs of chunks are out of order or reach past the chunk offset table,
    /// or a sample would lie past the largest offset.
    InconsistentTables,
}

/// The number of samples in the first `k` runs of the time-to-sample table.
pub open spec fn run_start(stts: Seq<TimeToSample>, k: int) -> int
    decreases k,
{
    if k <= 0 {
        0
    } else {
        run_start(stts, k - 1) + stts[k - 1].sample_count
    }
}

/// The number of samples that the time-to-sample table counts.
pub open spec fn sample_count(stts: Seq<TimeToSample>) -> int {
    run_start(stts, stts.len() as int)
}

/// Whether sample `j` falls in run `k`.
pub open spec fn in_run(stts: Seq<TimeToSample>, k: int, j: int) -> bool {
    0 <= k < stts.len() && run_start(stts, k) <= j < run_start(stts, k + 1)
}

/// The run in which sample `j` falls.
pub open spec fn run_of(stts: Seq<TimeToSample>, j: int) -> int {
    choose|k: int| in_run(stts, k, j)
}

/// The index of the first chunk of the `i`th run of chunks. Indices start at zero,
/// where the table counts chunks from one.
pub open spec fn entry_start(stsc: Seq<SampleToChunk>, i: int) -> int {
    stsc[i].first_chunk - 1
}

/// The index behind the last chunk of the `i`th run of chunks: a run ends where the
/// next begins, and the last run ends with the last of the `chunks` chunks.
pub open spec fn entry_end(stsc: Seq<SampleToChunk>, chunks: int, i: int) -> int {
    if i + 1 < stsc.len() {
        entry_start(stsc, i + 1)
    } else {
        chunks
    }
}

/// Whether every run of chunks begins at a chunk that exists and ends at or after its
/// beginning.
pub open spec fn entries_ordered(stsc: Seq<SampleToChunk>, chunks: int) -> bool {
    forall|i: int|
        0 <= i < stsc.len() ==> 0 <= #[trigger] entry_start(stsc, i) <= entry_end(stsc, chunks, i)
            <= chunks
}

/// The run of chunks to which chunk `c` belongs, looked for among the first `k` runs:
/// the last that begins at or before `c`, and -1 if there is none.
pub open spec fn entry_of(stsc: Seq<SampleToChunk>, c: int, k: int) -> int
    decreases k,
{
    if k <= 0 {
        -1
    } else if entry_start(stsc, k - 1) <= c {
        k - 1
    } else {
        entry_of(stsc, c, k - 1)
    }
}

/// The number of samples in chunk `c`: none in a chunk before the first run.
pub open spec fn per_chunk(stsc: Seq<SampleToChunk>, c: int) -> int {
    let i = entry_of(stsc, c, stsc.len() as int);
    if i < 0 {
        0
    } else {
        stsc[i].samples_per_chunk as int
    }
}

/// The number of samples in the chunks before chunk `c`, which is the index of the
/// first sample of chunk `c`.
pub open spec fn chunk_start(stsc: Seq<SampleToChunk>, c: int) -> int
    decreases c,
{
    if c <= 0 {
        0
    } else {
        chunk_start(stsc, c - 1) + per_chunk(stsc, c - 1)
    }
}

/// Whether sample `j` lies in chunk `c`, one of `chunks` chunks.
pub open spec fn in_chunk(stsc: Seq<SampleToChunk>, chunks: int, c: int, j: int) -> bool {
    0 <= c < chunks && chunk_start(stsc, c) <= j < chunk_start(stsc, c + 1)
}

/// The chunk in which sample `j` lies, of `chunks` chunks.
pub open spec fn chunk_of(stsc: Seq<SampleToChunk>, chunks: int, j: int) -> int {
    choose|c: int| in_chunk(stsc, chunks, c, j)
}

/// The number of bytes that the samples from `a` up to, not including, `b` take.
pub open spec fn size_sum(sizes: Seq<u32>, a: int, b: int) -> int
    decreases b - a,
{
    if b <= a {
        0
    } else {
        size_sum(sizes, a, b - 1) + sizes[b - 1]
    }
}

/// The offset of sample `j` in the file: the offset of its chunk, and the sizes of
/// the samples that lie before it in the chunk.
pub open spec fn offset_of(
    stsc: Seq<SampleToChunk>,
    sizes: Seq<u32>,
    offsets: Seq<u64>,
    j: int,
) -> int {
    let c = chunk_of(stsc, offsets.len() as int, j);
    offsets[c] + size_sum(sizes, chunk_start(stsc, c), j)
}

/// Whether the runs of chunks place exactly the samples that have a size, each at an
/// offset that can be held.
pub open spec fn placed(stsc: Seq<SampleToChunk>, sizes: Seq<u32>, offsets: Seq<u64>) -> bool {
    &&& entries_ordered(stsc, offsets.len() as int)
    &&& chunk_start(stsc, offsets.len() as int) == sizes.len()
    &&& forall|j: int|
        0 <= j < sizes.len() ==> #[trigger] offset_of(stsc, sizes, offsets, j) <= usize::MAX
}

/// Sample `j` of the track.
pub open spec fn sample_at(
    time_scale: Timescale,
    stts: Seq<TimeToSample>,
    stsc: Seq<SampleToChunk>,
    sizes: Seq<u32>,
    offsets: Seq<u64>,
    j: int,
) -> Sample {
    Sample {
        duration: time_scale.spec_decode_duration(stts[run_of(stts, j)].sample_duration),
        offset: offset_of(stsc, sizes, offsets, j) as usize,
        size: sizes[j] as usize,
    }
}

/// The samples that the tables describe, or why they describe none.
pub open spec fn sample_list(
    time_scale: Timescale,
    stts: Seq<TimeToSample>,
    stsc: Seq<SampleToChunk>,
    sizes: Seq<u32>,
    offsets: Seq<u64>,
) -> Result<Seq<Sample>, SamplesError> {
    if sample_count(stts) != sizes.len() {
        Err(SamplesError::InconsistentTables)
    } else if sizes.len() > 0 && time_scale.0 == 0 {
        Err(SamplesError::ZeroTimeScale)
    } else if !placed(stsc, sizes, offsets) {
        Err(SamplesError::InconsistentTables)
    } else {
        Ok(
            Seq::new(
                sizes.len(),
                |j: int| sample_at(time_scale, stts, stsc, sizes, offsets, j),
            ),
        )
    }
}

/// Later runs begin at later samples.
pub proof fn lemma_run_start_monotone(stts: Seq<TimeToSample>, a: int, b: int)
    requires
        0 <= a <= b,
    ensures
        0 <= run_start(stts, a) <= run_start(stts, b),
    decreases b,
{
    if b > 0 {
        if a < b {
            lemma_run_start_monotone(stts, a, b - 1);
        } else {
            lemma_run_start_monotone(stts, a - 1, b - 1);
        }
    }
}

/// A sample falls in one run only.
pub proof fn lemma_run_of(stts: Seq<TimeToSample>, k: int, j: int)
    requires
        in_run(stts, k, j),
    ensures
        run_of(stts, j) == k,
{
    let r = run_of(stts, j);
    assert(in_run(stts, r, j));
    if r < k {
        lemma_run_start_monotone(stts, r + 1, k);
    } else if r > k {
        lemma_run_start_monotone(stts, k + 1, r);
    }
}

/// Where the runs of chunks are in order, later runs begin at later chunks.
pub proof fn lemma_entry_start_monotone(stsc: Seq<SampleToChunk>, chunks: int, a: int, b: int)
    requires
        entries_ordered(stsc, chunks),
        0 <= a <= b < stsc.len(),
    ensures
        entry_start(stsc, a) <= entry_start(stsc, b),
    decreases b - a,
{
    if a < b {
        lemma_entry_start_monotone(stsc, chunks, a, b - 1);
        assert(entry_start(stsc, b - 1) <= entry_end(stsc, chunks, b - 1));
    }
}

/// Where the runs of chunks are in order, a chunk between the beginning and the end
/// of a run belongs to that run.
pub proof fn lemma_entry_of(stsc: Seq<SampleToChunk>, chunks: int, i: int, c: int, k: int)
    requires
        entries_ordered(stsc, chunks),
        0 <= i < k <= stsc.len(),
        entry_start(stsc, i) <= c < entry_end(stsc, chunks, i),
    ensures
        entry_of(stsc, c, k) == i,
    decreases k,
{
    if k > i + 1 {
        lemma_entry_start_monotone(stsc, chunks, i + 1, k - 1);
        lemma_entry_of(stsc, chunks, i, c, k - 1);
    }
}

/// A chunk before the first run of chunks belongs to no run.
pub proof fn lemma_entry_of_none(stsc: Seq<SampleToChunk>, chunks: int, c: int, k: int)
    requires
        entries_ordered(stsc, chunks),
        0 <= k <= stsc.len(),
        stsc.len() > 0 ==> c < entry_start(stsc, 0),
    ensures
        entry_of(stsc, c, k) == -1,
    decreases k,
{
    if k > 0 {
        lemma_entry_start_monotone(stsc, chunks, 0, k - 1);
        lemma_entry_of_none(stsc, chunks, c, k - 1);
    }
}

/// No sample lies in the chunks before the first run of chunks.
pub proof fn lemma_chunk_start_none(stsc: Seq<SampleToChunk>, chunks: int, c: int)
    requires
        entries_ordered(stsc, chunks),
        stsc.len() > 0 ==> c <= entry_start(stsc, 0),
    ensures
        chunk_start(stsc, c) == 0,
    decreases c,
{
    if c > 0 {
        lemma_chunk_start_none(stsc, chunks, c - 1);
        lemma_entry_of_none(stsc, chunks, c - 1, stsc.len() as int);
    }
}

/// Later chunks begin at later samples.
pub proof fn lemma_chunk_start_monotone(stsc: Seq<SampleToChunk>, a: int, b: int)
    requires
        a <= b,
    ensures
        0 <= chunk_start(stsc, a) <= chunk_start(stsc, b),
    decreases b,
{
    if b > 0 {
        if a < b {
            lemma_chunk_start_monotone(stsc, a, b - 1);
        } else {
            lemma_chunk_start_monotone(stsc, a - 1, b - 1);
        }
    }
}

/// A sample lies in one chunk only.
pub proof fn lemma_chunk_of(stsc: Seq<SampleToChunk>, chunks: int, c: int, j: int)
    requires
        in_chunk(stsc, chunks, c, j),
    ensures
        chunk_of(stsc, chunks, j) == c,
{
    let d = chunk_of(stsc, chunks, j);
    assert(in_chunk(stsc, chunks, d, j));
    if d < c {
        lemma_chunk_start_monotone(stsc, d + 1, c);
    } else if d > c {
        lemma_chunk_start_monotone(stsc, c + 1, d);
    }
}

/// The sizes of some samples add up to no more than as many times the largest size.
pub proof fn lemma_size_sum_bound(sizes: Seq<u32>, a: int, b: int)
    requires
        a <= b,
    ensures
        0 <= size_sum(sizes, a, b) <= (b - a) * 0xffff_ffff,
    decreases b - a,
{
    if a < b {
        lemma_size_sum_bound(sizes, a, b - 1);
    }
}

/// Whether the time-to-sample table counts exactly `n` samples.
pub fn counts_samples(stts: &[TimeToSample], n: usize) -> (same: bool)
    ensures
        same == (sample_count(stts@) == n),
{
    let mut total: usize = 0;
    let mut k: usize = 0;
    while k < stts.len()
        invariant
            k <= stts@.len(),
            total == run_start(stts@, k as int),
            total <= n,
        decreases stts@.len() - k,
    {
        let count: u32 = stts[k].sample_count;
        if count as u64 > (n - total) as u64 {
            proof {
                lemma_run_start_monotone(stts@, k + 1, stts@.len() as int);
            }
            return false;
        }
        total = total + count as usize;
        k = k + 1;
    }
    total == n
}

/// Whether the runs of chunks are in order and lie within a table of `chunks` chunks.
pub fn runs_ordered(stsc: &[SampleToChunk], chunks: usize) -> (ordered: bool)
    ensures
        ordered == entries_ordered(stsc@, chunks as int),
{
    let mut i: usize = 0;
    while i < stsc.len()
        invariant
            i <= stsc@.len(),
            forall|m: int|
                0 <= m < i ==> 0 <= #[trigger] entry_start(stsc@, m) <= entry_end(
                    stsc@,
                    chunks as int,
                    m,
                ) <= chunks,
        decreases stsc@.len() - i,
    {
        let first: u32 = stsc[i].first_chunk;
        let ordered: bool = if first == 0 {
            false
        } else if i + 1 < stsc.len() {
            let next: u32 = stsc[i + 1].first_chunk;
            first <= next && (next - 1) as u64 <= chunks as u64
        } else {
            (first - 1) as u64 <= chunks as u64
        };
        if !ordered {
            assert(!(0 <= entry_start(stsc@, i as int) <= entry_end(stsc@, chunks as int, i as int)
                <= chunks));
            return false;
        }
        i = i + 1;
    }
    true
}

/// The length of every sample, in the order of the samples: each lasts as long as
/// the run in which it falls says.
pub fn spread_durations(time_scale: &Timescale, stts: &[TimeToSample], n: usize) -> (durations: Vec<
    Duration,
>)
    requires
        time_scale.0 != 0,
        sample_count(stts@) == n,
    ensures
        durations@.len() == n,
        forall|j: int|
            0 <= j < n ==> #[trigger] durations@[j] == time_scale.spec_decode_duration(
                stts@[run_of(stts@, j)].sample_duration,
            ),
{
    let mut durations: Vec<Duration> = Vec::new();
    let mut k: usize = 0;
    while k < stts.len()
        invariant
            time_scale.0 != 0,
            sample_count(stts@) == n,
            k <= stts@.len(),
            durations@.len() == run_start(stts@, k as int),
            forall|j: int|
                0 <= j < durations@.len() ==> #[trigger] durations@[j]
                    == time_scale.spec_decode_duration(stts@[run_of(stts@, j)].sample_duration),
        decreases stts@.len() - k,
    {
        let duration = time_scale.decode_duration(stts[k].sample_duration);
        let count: u32 = stts[k].sample_count;
        let mut m: u32 = 0;
        proof {
            lemma_run_start_monotone(stts@, k + 1, stts@.len() as int);
        }
        while m < count
            invariant
                k < stts@.len(),
                count == stts@[k as int].sample_count,
                m <= count,
                run_start(stts@, k + 1) <= n,
                duration == time_scale.spec_decode_duration(stts@[k as int].sample_duration),
                durations@.len() == run_start(stts@, k as int) + m,
                forall|j: int|
                    0 <= j < durations@.len() ==> #[trigger] durations@[j]
                        == time_scale.spec_decode_duration(
                        stts@[run_of(stts@, j)].sample_duration,
                    ),
            decreases count - m,
        {
            proof {
                lemma_run_of(stts@, k as int, durations@.len() as int);
            }
            durations.push(duration);
            m = m + 1;
        }
        k = k + 1;
    }
    durations
}

/// Whether `sample` is sample `j` as the tables place it, with the length that
/// `durations` gives it.
pub open spec fn placed_at(
    stsc: Seq<SampleToChunk>,
    sizes: Seq<u32>,
    offsets: Seq<u64>,
    durations: Seq<Duration>,
    j: int,
    sample: Sample,
) -> bool {
    &&& offset_of(stsc, sizes, offsets, j) <= usize::MAX
    &&& sample.duration == durations[j]
    &&& sample.offset == offset_of(stsc, sizes, offsets, j)
    &&& sample.size == sizes[j]
}

/// Whether each of the first samples is the one that the tables place there.
pub open spec fn placed_as(
    stsc: Seq<SampleToChunk>,
    sizes: Seq<u32>,
    offsets: Seq<u64>,
    durations: Seq<Duration>,
    samples: Seq<Sample>,
) -> bool {
    forall|j: int|
        0 <= j < samples.len() ==> #[trigger] placed_at(
            stsc,
            sizes,
            offsets,
            durations,
            j,
            samples[j],
        )
}

/// One more sample that is placed as the tables say leaves all of them so.
pub proof fn lemma_placed_next(
    stsc: Seq<SampleToChunk>,
    sizes: Seq<u32>,
    offsets: Seq<u64>,
    durations: Seq<Duration>,
    samples: Seq<Sample>,
    next: Sample,
)
    requires
        placed_as(stsc, sizes, offsets, durations, samples),
        placed_at(stsc, sizes, offsets, durations, samples.len() as int, next),
    ensures
        placed_as(stsc, sizes, offsets, durations, samples.push(next)),
{
    let after = samples.push(next);
    assert forall|j: int| 0 <= j < after.len() implies #[trigger] placed_at(
        stsc,
        sizes,
        offsets,
        durations,
        j,
        after[j],
    ) by {
        if j < samples.len() {
            assert(placed_at(stsc, sizes, offsets, durations, j, samples[j]));
        }
    }
}

/// Places the samples: walks the runs of chunks and the chunks of each run, and gives
/// every chunk as many samples as its run says, one behind the other from the
/// chunk's offset on. `None` where the runs do not place exactly the samples that
/// have a size, or place one past the largest offset.
#[verifier::loop_isolation(false)]
pub fn place_samples(
    stsc: &[SampleToChunk],
    sizes: &[u32],
    offsets: &[u64],
    durations: &Vec<Duration>,
) -> (r: Option<Vec<Sample>>)
    requires
        entries_ordered(stsc@, offsets@.len() as int),
        durations@.len() == sizes@.len(),
    ensures
        match r {
            Some(samples) => {
                &&& placed(stsc@, sizes@, offsets@)
                &&& samples@.len() == sizes@.len()
                &&& placed_as(stsc@, sizes@, offsets@, durations@, samples@)
            },
            None => !placed(stsc@, sizes@, offsets@),
        },
{
    let n: usize = sizes.len();
    let chunks: usize = offsets.len();
    let mut samples: Vec<Sample> = Vec::new();
    let mut i: usize = 0;
    proof {
        if stsc@.len() > 0 {
            lemma_chunk_start_none(stsc@, chunks as int, entry_start(stsc@, 0));
        } else {
            lemma_chunk_start_none(stsc@, chunks as int, chunks as int);
        }
    }
    while i < stsc.len()
        invariant
            i <= stsc@.len(),
            samples@.len() <= n,
            i < stsc@.len() ==> samples@.len() == chunk_start(stsc@, entry_start(stsc@, i as int)),
            i == stsc@.len() ==> samples@.len() == chunk_start(stsc@, chunks as int),
            placed_as(stsc@, sizes@, offsets@, durations@, samples@),
        decreases stsc@.len() - i,
    {
        assert(0 <= entry_start(stsc@, i as int) <= entry_end(stsc@, chunks as int, i as int)
            <= chunks);
        let lo: usize = (stsc[i].first_chunk - 1) as usize;
        let hi: usize = if i + 1 < stsc.len() {
            (stsc[i + 1].first_chunk - 1) as usize
        } else {
            chunks
        };
        let per: u32 = stsc[i].samples_per_chunk;
        let mut c: usize = lo;
        while c < hi
            invariant
                lo <= c <= hi,
                samples@.len() <= n,
                samples@.len() == chunk_start(stsc@, c as int),
                placed_as(stsc@, sizes@, offsets@, durations@, samples@),
            decreases hi - c,
        {
            proof {
                lemma_entry_of(stsc@, chunks as int, i as int, c as int, stsc@.len() as int);
            }
            assert(per_chunk(stsc@, c as int) == per);
            let base: u64 = offsets[c];
            let ghost first = samples@.len() as int;
            let mut within: u128 = 0;
            let mut k: u32 = 0;
            while k < per
                invariant
                    k <= per,
                    samples@.len() <= n,
                    samples@.len() == first + k,
                    within == size_sum(sizes@, first, first + k),
                    placed_as(stsc@, sizes@, offsets@, durations@, samples@),
                decreases per - k,
            {
                let j: usize = samples.len();
                proof {
                    lemma_chunk_start_monotone(stsc@, c + 1, chunks as int);
                    lemma_size_sum_bound(sizes@, first, j as int);
                }
                if j >= n {
                    assert(chunk_start(stsc@, chunks as int) > n);
                    return None;
                }
                proof {
                    assert(in_chunk(stsc@, chunks as int, c as int, j as int));
                    lemma_chunk_of(stsc@, chunks as int, c as int, j as int);
                    assert(offset_of(stsc@, sizes@, offsets@, j as int) == base + within);
                }
                let at: u128 = base as u128 + within;
                if at > usize::MAX as u128 {
                    return None;
                }
                let ghost before = samples@;
                samples.push(
                    Sample { duration: durations[j], offset: at as usize, size: sizes[j] as usize },
                );
                within = within + sizes[j] as u128;
                k = k + 1;
                proof {
                    let placed = samples@[j as int];
                    lemma_placed_next(stsc@, sizes@, offsets@, durations@, before, placed);
                    assert(samples@ =~= before.push(samples@[j as int]));
                }
            }
            c = c + 1;
        }
        i = i + 1;
    }
    if samples.len() != n {
        return None;
    }
    proof {
        assert forall|j: int| 0 <= j < sizes@.len() implies #[trigger] offset_of(
            stsc@,
            sizes@,
            offsets@,
            j,
        ) <= usize::MAX by {
            assert(placed_at(stsc@, sizes@, offsets@, durations@, j, samples@[j]));
        }
    }
    Some(samples)
}

/// Lists the samples of a track from its tables: the time scale of its media, the
/// runs of equal sample length, the runs of chunks of equal sample count, the size of
/// every sample, and the offset of every chunk.
pub fn list_samples(
    time_scale: &Timescale,
    stts: &[TimeToSample],
    stsc: &[SampleToChunk],
    sizes: &[u32],
    offsets: &[u64],
) -> (r: Result<Vec<Sample>, SamplesError>)
    ensures
        match r {
            Ok(samples) => Ok::<Seq<Sample>, SamplesError>(samples@) == sample_list(
                *time_scale,
                stts@,
                stsc@,
                sizes@,
                offsets@,
            ),
            Err(e) => Err::<Seq<Sample>, SamplesError>(e) == sample_list(
                *time_scale,
                stts@,
                stsc@,
                sizes@,
                offsets@,
            ),
        },
{
    let n: usize = sizes.len();
    if !counts_samples(stts, n) {
        return Err(SamplesError::InconsistentTables);
    }
    if n > 0 && time_scale.0 == 0 {
        return Err(SamplesError::ZeroTimeScale);
    }
    if !runs_ordered(stsc, offsets.len()) {
        return Err(SamplesError::InconsistentTables);
    }
    let durations: Vec<Duration> = if n > 0 {
        spread_durations(time_scale, stts, n)
    } else {
        Vec::new()
    };
    match place_samples(stsc, sizes, offsets, &durations) {
        None => Err(SamplesError::InconsistentTables),
        Some(samples) => {
            proof {
                let listed = Seq::new(
                    sizes@.len(),
                    |j: int| sample_at(*time_scale, stts@, stsc@, sizes@, offsets@, j),
                );
                assert forall|j: int| 0 <= j < sizes@.len() implies samples@[j] == listed[j] by {
                    assert(placed_at(stsc@, sizes@, offsets@, durations@, j, samples@[j]));
                }
                assert(samples@ =~= listed);
            }
            Ok(samples)
        },
    }
}

/// A list that was built holds one sample for each that the time-to-sample table
/// counts, which is one for each size.
pub proof fn lemma_sample_list_len(
    time_scale: Timescale,
    stts: Seq<TimeToSample>,
    stsc: Seq<SampleToChunk>,
    sizes: Seq<u32>,
    offsets: Seq<u64>,
)
    requires
        sample_list(time_scale, stts, stsc, sizes, offsets) is Ok,
    ensures
        sample_list(time_scale, stts, stsc, sizes, offsets)->Ok_0.len() == sample_count(stts),
        sample_list(time_scale, stts, stsc, sizes, offsets)->Ok_0.len() == sizes.len(),
{
}

/// In a list that was built, every sample lies in exactly one chunk, and two samples
/// that follow each other in one chunk lie end to end: the second begins where the
/// first ends.
pub proof fn lemma_samples_end_to_end(
    time_scale: Timescale,
    stts: Seq<TimeToSample>,
    stsc: Seq<SampleToChunk>,
    sizes: Seq<u32>,
    offsets: Seq<u64>,
    j: int,
)
    requires
        sample_list(time_scale, stts, stsc, sizes, offsets) is Ok,
        0 <= j,
        j + 1 < sizes.len(),
    ensures
        in_chunk(stsc, offsets.len() as int, chunk_of(stsc, offsets.len() as int, j), j),
        chunk_of(stsc, offsets.len() as int, j) == chunk_of(
            stsc,
            offsets.len() as int,
            j + 1,
        ) ==> ({
            let samples = sample_list(time_scale, stts, stsc, sizes, offsets)->Ok_0;
            samples[j].offset + samples[j].size == samples[j + 1].offset
        }),
{
    let chunks = offsets.len() as int;
    lemma_sample_in_chunk(stsc, chunks, chunks, j);
    let c = chunk_of(stsc, chunks, j);
    if c == chunk_of(stsc, chunks, j + 1) {
        lemma_sample_in_chunk(stsc, chunks, chunks, j + 1);
        lemma_size_sum_bound(sizes, chunk_start(stsc, c), j);
        assert(size_sum(sizes, chunk_start(stsc, c), j + 1) == size_sum(
            sizes,
            chunk_start(stsc, c),
            j,
        ) + sizes[j]);
        assert(0 <= offset_of(stsc, sizes, offsets, j) <= usize::MAX);
        assert(0 <= offset_of(stsc, sizes, offsets, j + 1) <= usize::MAX);
        let samples = sample_list(time_scale, stts, stsc, sizes, offsets)->Ok_0;
        assert(samples[j] == sample_at(time_scale, stts, stsc, sizes, offsets, j));
        assert(samples[j + 1] == sample_at(time_scale, stts, stsc, sizes, offsets, j + 1));
    }
}

/// A sample that lies before the first sample of chunk `c` lies in one of the chunks
/// before `c`.
pub proof fn lemma_sample_in_chunk(stsc: Seq<SampleToChunk>, chunks: int, c: int, j: int)
    requires
        0 <= c <= chunks,
        0 <= j < chunk_start(stsc, c),
    ensures
        in_chunk(stsc, chunks, chunk_of(stsc, chunks, j), j),
    decreases c,
{
    if c > 0 {
        if j < chunk_start(stsc, c - 1) {
            lemma_sample_in_chunk(stsc, chunks, c - 1, j);
        } else {
            assert(in_chunk(stsc, chunks, c - 1, j));
        }
    }
}

/// Offsets of 32 bits as offsets of 64 bits.
pub open spec fn widened(table: Seq<u32>) -> Seq<u64> {
    Seq::new(table.len(), |i: int| table[i] as u64)
}

/// Offsets of 32 bits as offsets of 64 bits.
pub fn widen_offsets(table: &[u32]) -> (wide: Vec<u64>)
    ensures
        wide@ == widened(table@),
{
    let mut wide: Vec<u64> = Vec::new();
    let mut i: usize = 0;
    while i < table.len()
        invariant
            i <= table@.len(),
            wide@.len() == i,
            forall|m: int| 0 <= m < i ==> wide@[m] == table@[m] as u64,
        decreases table@.len() - i,
    {
        wide.push(table[i] as u64);
        i = i + 1;
    }
    assert(wide@ =~= widened(table@));
    wide
}

impl Co64 {
    /// The table of 64-bit offsets that says what a table of 32-bit offsets says.
    pub open spec fn of_stco(stco: StcoModel) -> Co64Model {
        Co64Model {
            header: stco.header,
            version: stco.version,
            flags: stco.flags,
            number_of_entries: stco.number_of_entries,
            chunk_offset_table: widened(stco.chunk_offset_table),
        }
    }
}

impl<'a> From<&'a Stco> for Co64 {
    /// The table of 64-bit offsets that says what `stco` says.
    fn from(stco: &'a Stco) -> (co64: Co64)
        ensures
            co64.deep_view() == Co64::of_stco(stco.deep_view()),
    {
        let chunk_offset_table = widen_offsets(stco.chunk_offset_table.as_slice());
        assert(stco.chunk_offset_table.deep_view() =~= stco.chunk_offset_table@);
        assert(chunk_offset_table.deep_view() =~= chunk_offset_table@);
        Co64 {
            header: stco.header,
            version: stco.version,
            flags: stco.flags,
            number_of_entries: stco.number_of_entries,
            chunk_offset_table,
        }
    }
}

impl<'a> FromSpecImpl<&'a Stco> for Co64 {
    /// Two tables that hold the same offsets need not be the same value, so the
    /// conversion is described by what its result holds, not by the result itself.
    open spec fn obeys_from_spec() -> bool {
        false
    }

    open spec fn from_spec(stco: &'a Stco) -> Co64 {
        choose|co64: Co64| co64.deep_view() == Co64::of_stco(stco.deep_view())
    }
}

/// The offsets of the chunks of a track: those of its table of 32-bit offsets if it
/// has one, else those of its table of 64-bit offsets.
pub open spec fn chunk_offsets(stbl: StblModel) -> Option<Seq<u64>> {
    match stbl.stco {
        Some(stco) => Some(Co64::of_stco(stco).chunk_offset_table),
        None => match stbl.co64 {
            Some(co64) => Some(co64.chunk_offset_table),
            None => None,
        },
    }
}

impl Trak {
    /// The samples of a track, or why they cannot be listed.
    pub open spec fn spec_samples(trak: TrakModel) -> Result<Seq<Sample>, SamplesError> {
        let stbl = trak.mdia.minf.stbl;
        match chunk_offsets(stbl) {
            None => Err(SamplesError::Co64OrStcoNotFound),
            Some(offsets) => sample_list(
                trak.mdia.mdhd.time_scale,
                stbl.stts.time_to_sample_table,
                stbl.stsc.sample_to_chunk_table,
                stbl.stsz.sample_size_table,
                offsets,
            ),
        }
    }

    /// Lists the samples of the track, in the order in which its chunks hold them.
    pub fn samples(&self) -> (r: Result<Vec<Sample>, SamplesError>)
        ensures
            match r {
                Ok(samples) => Ok::<Seq<Sample>, SamplesError>(samples@) == Self::spec_samples(
                    self.deep_view(),
                ),
                Err(e) => Err::<Seq<Sample>, SamplesError>(e) == Self::spec_samples(
                    self.deep_view(),
                ),
            },
    {
        let stbl = &self.mdia.minf.stbl;
        let time_scale = &self.mdia.mdhd.time_scale;
        let stts = stbl.stts.time_to_sample_table.as_slice();
        let stsc = stbl.stsc.sample_to_chunk_table.as_slice();
        let sizes = stbl.stsz.sample_size_table.as_slice();
        proof {
            assert(stbl.stts.time_to_sample_table.deep_view() =~= stts@);
            assert(stbl.stsc.sample_to_chunk_table.deep_view() =~= stsc@);
            assert(stbl.stsz.sample_size_table.deep_view() =~= sizes@);
        }
        match &stbl.stco {
            Some(stco) => {
                let co64 = Co64::from(stco);
                assert(co64.chunk_offset_table.deep_view() =~= co64.chunk_offset_table@);
                list_samples(time_scale, stts, stsc, sizes, co64.chunk_offset_table.as_slice())
            },
            None => match &stbl.co64 {
                Some(co64) => {
                    assert(co64.chunk_offset_table.deep_view() =~= co64.chunk_offset_table@);
                    list_samples(time_scale, stts, stsc, sizes, co64.chunk_offset_table.as_slice())
                },
                None => Err(SamplesError::Co64OrStcoNotFound),
            },
        }
    }
}

impl Moov {
    /// The length of the movie in real time. A movie with a time scale of zero ticks
    /// to the second has none.
    pub fn video_duration(&self) -> (d: Duration)
        requires
            self.mvhd.time_scale.0 != 0,
        ensures
            d == self.mvhd.time_scale.spec_decode_duration(self.mvhd.duration),
    {
        self.mvhd.time_scale.decode_duration(self.mvhd.duration)
    }
}

} // verus!
