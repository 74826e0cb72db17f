//! Aggregation of the raw per-round timing samples the benchmark harness
//! writes, into one results record per producing process.

use vstd::prelude::*;
use vstd::string::*;

use crate::templater::{json_escape, spec_json_escape};
use crate::text::{dec_spec, u64_to_dec};

verus! {

/// One raw timing file, as the benchmark harness writes it.
pub struct RawResult {
    /// The benchmark's reported name.
    pub name: String,
    /// The benchmark's source location, as `<file>::<name>`.
    pub uri: String,
    /// The process that produced the samples.
    pub pid: u32,
    /// Wall time of each round, in nanoseconds.
    pub codspeed_time_per_round_ns: Vec<u64>,
    /// Iterations run in each round; may be empty, meaning one per round.
    pub codspeed_iters_per_round: Vec<u64>,
}

#[verifier::ext_equal]
pub ghost struct RawResultView {
    pub name: Seq<char>,
    pub uri: Seq<char>,
    pub pid: u32,
    pub times: Seq<u64>,
    pub iters: Seq<u64>,
}

impl View for RawResult {
    type V = RawResultView;

    open spec fn view(&self) -> RawResultView {
        RawResultView {
            name: self.name@,
            uri: self.uri@,
            pid: self.pid,
            times: self.codspeed_time_per_round_ns@,
            iters: self.codspeed_iters_per_round@,
        }
    }
}

impl DeepView for RawResult {
    type V = RawResultView;

    open spec fn deep_view(&self) -> RawResultView {
        self@
    }
}

/// The benchmark's identity in the aggregated output.
pub struct BenchmarkMetadata {
    pub name: String,
    pub uri: String,
}

/// Summary statistics over the per-iteration samples.
pub struct BenchmarkStats {
    pub count: u64,
    pub mean_ns: u64,
    pub min_ns: u64,
    pub max_ns: u64,
}

/// One aggregated benchmark: its identity, the ordered per-iteration
/// samples, and their summary.
pub struct WalltimeBenchmark {
    pub metadata: BenchmarkMetadata,
    pub samples: Vec<u64>,
    pub stats: BenchmarkStats,
}

#[verifier::ext_equal]
pub ghost struct WalltimeBenchmarkView {
    pub name: Seq<char>,
    pub uri: Seq<char>,
    pub samples: Seq<u64>,
    pub count: u64,
    pub mean_ns: u64,
    pub min_ns: u64,
    pub max_ns: u64,
}

impl View for WalltimeBenchmark {
    type V = WalltimeBenchmarkView;

    open spec fn view(&self) -> WalltimeBenchmarkView {
        WalltimeBenchmarkView {
            name: self.metadata.name@,
            uri: self.metadata.uri@,
            samples: self.samples@,
            count: self.stats.count,
            mean_ns: self.stats.mean_ns,
            min_ns: self.stats.min_ns,
            max_ns: self.stats.max_ns,
        }
    }
}

impl DeepView for WalltimeBenchmark {
    type V = WalltimeBenchmarkView;

    open spec fn deep_view(&self) -> WalltimeBenchmarkView {
        self@
    }
}

/// The iterations that round `i` ran: the reported entry when it is there
/// and positive, otherwise one. An absent or empty iteration list means one
/// iteration per round.
pub open spec fn spec_iters_at(iters: Seq<u64>, i: int) -> u64 {
    if 0 <= i < iters.len() && iters[i] > 0 {
        iters[i]
    } else {
        1
    }
}

/// The per-iteration samples of one raw record: each round's time divided
/// by that round's iterations, one sample per round, in round order.
pub open spec fn spec_samples(times: Seq<u64>, iters: Seq<u64>) -> Seq<u64> {
    Seq::new(times.len(), |i: int| times[i] / spec_iters_at(iters, i))
}

pub open spec fn spec_sum(s: Seq<u64>) -> int
    decreases s.len(),
{
    if s.len() == 0 {
        0
    } else {
        spec_sum(s.drop_last()) + s.last()
    }
}

pub open spec fn spec_min(s: Seq<u64>) -> u64
    decreases s.len(),
{
    if s.len() == 0 {
        0
    } else if s.len() == 1 {
        s.last()
    } else if s.last() < spec_min(s.drop_last()) {
        s.last()
    } else {
        spec_min(s.drop_last())
    }
}

pub open spec fn spec_max(s: Seq<u64>) -> u64
    decreases s.len(),
{
    if s.len() == 0 {
        0
    } else if s.last() > spec_max(s.drop_last()) {
        s.last()
    } else {
        spec_max(s.drop_last())
    }
}

/// The integer mean of the samples, zero when there are none.
pub open spec fn spec_mean(s: Seq<u64>) -> int {
    if s.len() == 0 {
        0
    } else {
        spec_sum(s) / (s.len() as int)
    }
}

/// The sum of the samples is at most their number times their maximum, so
/// the mean never exceeds the maximum.
proof fn lemma_sum_le_len_times_max(s: Seq<u64>)
    ensures
        spec_sum(s) >= 0,
        spec_sum(s) <= s.len() * (spec_max(s) as int),
    decreases s.len(),
{
    if s.len() > 0 {
        lemma_sum_le_len_times_max(s.drop_last());
        let m = spec_max(s) as int;
        let n1 = s.drop_last().len() as int;
        assert(spec_max(s.drop_last()) <= spec_max(s));
        assert(spec_sum(s.drop_last()) <= n1 * (spec_max(s.drop_last()) as int));
        assert(n1 * (spec_max(s.drop_last()) as int) <= n1 * m) by (nonlinear_arith)
            requires
                n1 >= 0,
                spec_max(s.drop_last()) as int <= m,
        ;
        assert((n1 + 1) * m == n1 * m + m) by (nonlinear_arith);
    }
}

/// A raw file without iteration counts aggregates to one sample per round,
/// each round counting as a single iteration: the samples are the round
/// times themselves, in round order.
pub proof fn lemma_empty_iters_one_per_round(times: Seq<u64>)
    ensures
        spec_samples(times, Seq::empty()).len() == times.len(),
        forall|i: int| 0 <= i < times.len() ==> spec_samples(times, Seq::empty())[i] == times[i],
{
    assert forall|i: int|
        0 <= i < times.len() implies spec_samples(times, Seq::empty())[i] == times[i] by {
        assert(spec_iters_at(Seq::empty(), i) == 1);
        assert(times[i] / 1 == times[i]);
    }
}

/// The aggregate of one raw record.
pub open spec fn spec_aggregate(r: RawResultView) -> WalltimeBenchmarkView {
    let samples = spec_samples(r.times, r.iters);
    WalltimeBenchmarkView {
        name: r.name,
        uri: r.uri,
        samples,
        count: samples.len() as u64,
        mean_ns: spec_mean(samples) as u64,
        min_ns: spec_min(samples),
        max_ns: spec_max(samples),
    }
}

impl WalltimeBenchmark {
    /// Aggregates the harness's per-round data into per-iteration samples
    /// and their summary. The sample count equals the number of rounds, in
    /// round order; an empty iteration list counts as one iteration per
    /// round.
    pub fn from_runtime_data(
        name: String,
        uri: String,
        iters: &Vec<u64>,
        times: &Vec<u64>,
    ) -> (r: WalltimeBenchmark)
        ensures
            r@ == spec_aggregate(
                RawResultView { name: name@, uri: uri@, pid: 0, times: times@, iters: iters@ },
            ),
            r@.samples.len() == times@.len(),
    {
        let n: usize = times.len();
        let mut samples: Vec<u64> = Vec::new();
        let mut sum: u128 = 0;
        let mut min_ns: u64 = 0;
        let mut max_ns: u64 = 0;
        let mut i: usize = 0;
        while i < n
            invariant
                i <= n,
                n == times@.len(),
                samples@ =~= spec_samples(times@, iters@).subrange(0, i as int),
                sum == spec_sum(samples@),
                sum <= (i as int) * (u64::MAX as int),
                min_ns == spec_min(samples@),
                max_ns == spec_max(samples@),
            decreases n - i,
        {
            let ghost pre = samples@;
            let t: u64 = times[i];
            let it: u64 = if i < iters.len() && iters[i] > 0 {
                iters[i]
            } else {
                1
            };
            let sample: u64 = t / it;
            proof {
                assert(sample == spec_samples(times@, iters@)[i as int]);
                assert((i as int + 1) * (u64::MAX as int) == (i as int) * (u64::MAX as int)
                    + u64::MAX as int) by (nonlinear_arith);
            }
            samples.push(sample);
            sum = sum + (sample as u128);
            if i == 0 {
                min_ns = sample;
                max_ns = sample;
            } else {
                if sample < min_ns {
                    min_ns = sample;
                }
                if sample > max_ns {
                    max_ns = sample;
                }
            }
            proof {
                assert(samples@.drop_last() =~= pre);
                assert(samples@ =~= spec_samples(times@, iters@).subrange(0, i + 1));
            }
            i += 1;
        }
        proof {
            assert(spec_samples(times@, iters@).subrange(
                0,
                spec_samples(times@, iters@).len() as int,
            ) =~= spec_samples(times@, iters@));
        }
        let count: u64 = samples.len() as u64;
        let mean_ns: u64 = if count == 0 {
            0
        } else {
            proof {
                lemma_sum_le_len_times_max(samples@);
                assert((samples@.len() as int) * (spec_max(samples@) as int) <= (samples@.len()
                    as int) * (u64::MAX as int)) by (nonlinear_arith)
                    requires
                        spec_max(samples@) <= u64::MAX,
                        samples@.len() >= 0,
                ;
                assert(spec_sum(samples@) / (samples@.len() as int) <= spec_max(samples@) as int)
                    by (nonlinear_arith)
                    requires
                        samples@.len() > 0,
                        spec_sum(samples@) >= 0,
                        spec_sum(samples@) <= (samples@.len() as int) * (spec_max(samples@) as int),
                ;
            }
            (sum / (count as u128)) as u64
        };
        WalltimeBenchmark {
            metadata: BenchmarkMetadata { name, uri },
            samples,
            stats: BenchmarkStats { count, mean_ns, min_ns, max_ns },
        }
    }
}

/// Who produced a results file: this tool, its version, and the process the
/// samples came from.
pub struct Creator {
    pub name: String,
    pub version: String,
    pub pid: u32,
}

#[verifier::ext_equal]
pub ghost struct CreatorView {
    pub name: Seq<char>,
    pub version: Seq<char>,
    pub pid: u32,
}

impl View for Creator {
    type V = CreatorView;

    open spec fn view(&self) -> CreatorView {
        CreatorView { name: self.name@, version: self.version@, pid: self.pid }
    }
}

/// One aggregated results file: its creator and the benchmarks produced
/// under that creator's pid.
pub struct WalltimeResults {
    pub creator: Creator,
    pub benchmarks: Vec<WalltimeBenchmark>,
}

#[verifier::ext_equal]
pub ghost struct WalltimeResultsView {
    pub creator: CreatorView,
    pub benchmarks: Seq<WalltimeBenchmarkView>,
}

impl View for WalltimeResults {
    type V = WalltimeResultsView;

    open spec fn view(&self) -> WalltimeResultsView {
        WalltimeResultsView { creator: self.creator@, benchmarks: self.benchmarks.deep_view() }
    }
}

impl DeepView for WalltimeResults {
    type V = WalltimeResultsView;

    open spec fn deep_view(&self) -> WalltimeResultsView {
        self@
    }
}

impl WalltimeResults {
    /// Pairs the aggregated benchmarks with their creator.
    pub fn new(benchmarks: Vec<WalltimeBenchmark>, creator: Creator) -> (r: WalltimeResults)
        ensures
            r@.creator == creator@,
            r@.benchmarks == benchmarks.deep_view(),
    {
        WalltimeResults { creator, benchmarks }
    }
}

/// The distinct producer pids of the raw records, in first-occurrence
/// order.
pub open spec fn spec_pids(s: Seq<RawResultView>) -> Seq<u32>
    decreases s.len(),
{
    if s.len() == 0 {
        Seq::empty()
    } else {
        let rest = spec_pids(s.drop_last());
        if rest.contains(s.last().pid) {
            rest
        } else {
            rest.push(s.last().pid)
        }
    }
}

pub proof fn lemma_spec_pids(s: Seq<RawResultView>)
    ensures
        forall|p: u32|
            #[trigger] spec_pids(s).contains(p) <==> exists|i: int|
                0 <= i < s.len() && (#[trigger] s[i]).pid == p,
        forall|i: int, j: int|
            0 <= i < j < spec_pids(s).len() ==> spec_pids(s)[i] != spec_pids(s)[j],
    decreases s.len(),
{
    if s.len() > 0 {
        lemma_spec_pids(s.drop_last());
        let rest = spec_pids(s.drop_last());
        assert forall|p: u32| #[trigger]
            spec_pids(s).contains(p) implies exists|i: int|
            0 <= i < s.len() && (#[trigger] s[i]).pid == p by {
            if rest.contains(p) {
                let i = choose|i: int|
                    0 <= i < s.drop_last().len() && (#[trigger] s.drop_last()[i]).pid == p;
                assert(s[i].pid == p);
            } else {
                assert(s[s.len() - 1].pid == p);
            }
        }
        assert forall|p: u32|
            (exists|i: int| 0 <= i < s.len() && (#[trigger] s[i]).pid == p) implies #[trigger]
            spec_pids(s).contains(p) by {
            let i = choose|i: int| 0 <= i < s.len() && (#[trigger] s[i]).pid == p;
            if i < s.len() - 1 {
                assert(s.drop_last()[i].pid == p);
                assert(rest.contains(p));
                if !rest.contains(s.last().pid) {
                    assert(spec_pids(s)[choose|k: int|
                        0 <= k < rest.len() && rest[k] == p] == p);
                }
            } else {
                if rest.contains(s.last().pid) {
                } else {
                    assert(spec_pids(s)[spec_pids(s).len() - 1] == p);
                }
            }
        }
    }
}

/// The aggregated benchmarks of one producer: the raw records with its pid,
/// in input order, each aggregated.
pub open spec fn spec_group(s: Seq<RawResultView>, pid: u32) -> Seq<WalltimeBenchmarkView> {
    s.filter(|r: RawResultView| r.pid == pid).map_values(|r: RawResultView| spec_aggregate(r))
}

/// What aggregation yields on the raw records: one results record per
/// distinct producer pid, in first-occurrence order, each holding that
/// producer's aggregated benchmarks in input order.
pub open spec fn spec_collect_results(s: Seq<RawResultView>, version: Seq<char>) -> Seq<
    WalltimeResultsView,
> {
    Seq::new(
        spec_pids(s).len(),
        |k: int|
            WalltimeResultsView {
                creator: CreatorView { name: "codspeed-go"@, version, pid: spec_pids(s)[k] },
                benchmarks: spec_group(s, spec_pids(s)[k]),
            },
    )
}

/// Collects the distinct pids of the raw records, in first-occurrence
/// order.
fn collect_pids(raw: &Vec<RawResult>) -> (r: Vec<u32>)
    ensures
        r@ == spec_pids(raw.deep_view()),
{
    let ghost raw_v = raw.deep_view();
    let n: usize = raw.len();
    let mut pids: Vec<u32> = Vec::new();
    let mut i: usize = 0;
    while i < n
        invariant
            i <= n,
            n == raw@.len(),
            raw_v == raw.deep_view(),
            raw_v.len() == raw@.len(),
            pids@ == spec_pids(raw_v.subrange(0, i as int)),
        decreases n - i,
    {
        proof {
            assert(raw_v[i as int] == raw@[i as int]@);
            assert(raw_v.subrange(0, i + 1).drop_last() =~= raw_v.subrange(0, i as int));
            assert(raw_v.subrange(0, i + 1).last() == raw_v[i as int]);
        }
        let pid: u32 = raw[i].pid;
        let mut seen: bool = false;
        let mut k: usize = 0;
        let n_pids: usize = pids.len();
        while k < n_pids
            invariant
                k <= n_pids,
                n_pids == pids@.len(),
                seen <==> exists|j: int| 0 <= j < k && pids@[j] == pid,
            decreases n_pids - k,
        {
            if pids[k] == pid {
                seen = true;
            }
            k += 1;
        }
        if !seen {
            proof {
                if pids@.contains(pid) {
                    let j = choose|j: int| 0 <= j < pids@.len() && pids@[j] == pid;
                    assert(false);
                }
            }
            pids.push(pid);
        } else {
            proof {
                let j = choose|j: int| 0 <= j < pids@.len() && pids@[j] == pid;
                assert(pids@.contains(pid));
            }
        }
        i += 1;
    }
    proof {
        assert(raw_v.subrange(0, n as int) =~= raw_v);
    }
    pids
}

/// Aggregates every raw record with the given pid, in input order.
fn collect_group(raw: &Vec<RawResult>, pid: u32) -> (r: Vec<WalltimeBenchmark>)
    ensures
        r.deep_view() == spec_group(raw.deep_view(), pid),
{
    let ghost raw_v = raw.deep_view();
    let n: usize = raw.len();
    let mut out: Vec<WalltimeBenchmark> = Vec::new();
    let mut i: usize = 0;
    while i < n
        invariant
            i <= n,
            n == raw@.len(),
            raw_v == raw.deep_view(),
            raw_v.len() == raw@.len(),
            out.deep_view() == spec_group(raw_v.subrange(0, i as int), pid),
        decreases n - i,
    {
        let ghost pre = out.deep_view();
        let ghost prefix = raw_v.subrange(0, i as int);
        let ghost next = raw_v.subrange(0, i + 1);
        proof {
            reveal(Seq::filter);
            assert(raw_v[i as int] == raw@[i as int]@);
            assert(next.drop_last() =~= prefix);
            assert(next.last() == raw_v[i as int]);
        }
        if raw[i].pid == pid {
            let bench = WalltimeBenchmark::from_runtime_data(
                raw[i].name.clone(),
                raw[i].uri.clone(),
                &raw[i].codspeed_iters_per_round,
                &raw[i].codspeed_time_per_round_ns,
            );
            out.push(bench);
            proof {
                let pred = (|r: RawResultView| r.pid == pid);
                assert(next.filter(pred) =~= prefix.filter(pred).push(raw_v[i as int]));
                assert(out.deep_view() =~= pre.push(bench@));
                assert(bench@ == spec_aggregate(raw_v[i as int]));
                assert(out.deep_view() =~= spec_group(next, pid));
            }
        } else {
            proof {
                let pred = (|r: RawResultView| r.pid == pid);
                assert(next.filter(pred) =~= prefix.filter(pred));
                assert(out.deep_view() =~= spec_group(next, pid));
            }
        }
        i += 1;
    }
    proof {
        assert(raw_v.subrange(0, n as int) =~= raw_v);
    }
    out
}

/// Groups the raw records by producer pid and aggregates each group: one
/// results record per pid, in first-occurrence order, carrying this tool's
/// creator descriptor.
pub fn collect_walltime_results(raw: &Vec<RawResult>, version: &str) -> (r: Vec<WalltimeResults>)
    ensures
        r.deep_view() == spec_collect_results(raw.deep_view(), version@),
{
    let pids: Vec<u32> = collect_pids(raw);
    let n: usize = pids.len();
    let mut out: Vec<WalltimeResults> = Vec::new();
    let mut k: usize = 0;
    while k < n
        invariant
            k <= n,
            n == pids@.len(),
            pids@ == spec_pids(raw.deep_view()),
            out.deep_view() =~= spec_collect_results(raw.deep_view(), version@).subrange(
                0,
                k as int,
            ),
        decreases n - k,
    {
        let ghost pre = out.deep_view();
        let benchmarks: Vec<WalltimeBenchmark> = collect_group(raw, pids[k]);
        let creator = Creator {
            name: "codspeed-go".to_owned(),
            version: version.to_owned(),
            pid: pids[k],
        };
        let entry = WalltimeResults { creator, benchmarks };
        out.push(entry);
        proof {
            assert(entry@ == spec_collect_results(raw.deep_view(), version@)[k as int]);
            assert(out.deep_view() =~= pre.push(entry@));
            assert(out.deep_view() =~= spec_collect_results(raw.deep_view(), version@).subrange(
                0,
                k + 1,
            ));
        }
        k += 1;
    }
    proof {
        assert(spec_collect_results(raw.deep_view(), version@).subrange(0, n as int)
            =~= spec_collect_results(raw.deep_view(), version@));
    }
    out
}

/// The name of a producer's results file: its pid, in decimal, with the
/// `.json` extension.
pub fn results_file_name(pid: u32) -> (r: String)
    ensures
        r@ == dec_spec(pid as int) + ".json"@,
{
    let mut out: String = u64_to_dec(pid as u64);
    out.append(".json");
    out
}

/// A comma-joined list of numbers, as a JSON array's inside.
pub open spec fn spec_samples_json(s: Seq<u64>) -> Seq<char>
    decreases s.len(),
{
    if s.len() == 0 {
        Seq::empty()
    } else if s.len() == 1 {
        dec_spec(s.last() as int)
    } else {
        spec_samples_json(s.drop_last()) + ","@ + dec_spec(s.last() as int)
    }
}

/// The stats object of one aggregated benchmark.
pub open spec fn spec_stats_json(b: WalltimeBenchmarkView) -> Seq<char> {
    "{\"count\":"@ + dec_spec(b.count as int) + ",\"mean_ns\":"@ + dec_spec(b.mean_ns as int)
        + ",\"min_ns\":"@ + dec_spec(b.min_ns as int) + ",\"max_ns\":"@ + dec_spec(
        b.max_ns as int,
    ) + "}"@
}

/// One aggregated benchmark as a JSON object.
pub open spec fn spec_bench_json(b: WalltimeBenchmarkView) -> Seq<char> {
    "{\"metadata\":{\"name\":\""@ + spec_json_escape(b.name) + "\",\"uri\":\""@
        + spec_json_escape(b.uri) + "\"},\"samples\":["@ + spec_samples_json(b.samples) + "],\"stats\":"@
        + spec_stats_json(b) + "}"@
}

/// The comma-joined benchmark objects.
pub open spec fn spec_benches_json(benches: Seq<WalltimeBenchmarkView>) -> Seq<char>
    decreases benches.len(),
{
    if benches.len() == 0 {
        Seq::empty()
    } else if benches.len() == 1 {
        spec_bench_json(benches.last())
    } else {
        spec_benches_json(benches.drop_last()) + ","@ + spec_bench_json(benches.last())
    }
}

/// One producer's whole results file.
pub open spec fn spec_results_json(r: WalltimeResultsView) -> Seq<char> {
    "{\"creator\":{\"name\":\""@ + spec_json_escape(r.creator.name) + "\",\"version\":\""@
        + spec_json_escape(r.creator.version) + "\",\"pid\":"@ + dec_spec(r.creator.pid as int)
        + "},\"benchmarks\":["@ + spec_benches_json(r.benchmarks) + "]}"@
}

fn render_u64(n: u64) -> (r: String)
    ensures
        r@ == dec_spec(n as int),
{
    u64_to_dec(n)
}

fn render_bench_json(b: &WalltimeBenchmark) -> (r: String)
    ensures
        r@ == spec_bench_json(b@),
{
    let mut out: String = "{\"metadata\":{\"name\":\"".to_owned();
    let esc_name = json_escape(b.metadata.name.as_str());
    out.append(esc_name.as_str());
    out.append("\",\"uri\":\"");
    let esc_uri = json_escape(b.metadata.uri.as_str());
    out.append(esc_uri.as_str());
    out.append("\"},\"samples\":[");
    let n: usize = b.samples.len();
    let mut j: usize = 0;
    let ghost before_samples = out@;
    while j < n
        invariant
            j <= n,
            n == b.samples@.len(),
            out@ == before_samples + spec_samples_json(b.samples@.subrange(0, j as int)),
        decreases n - j,
    {
        proof {
            assert(b.samples@.subrange(0, j + 1).drop_last() =~= b.samples@.subrange(0, j as int));
            assert(b.samples@.subrange(0, j + 1).last() == b.samples@[j as int]);
        }
        if j > 0 {
            out.append(",");
        }
        let d = render_u64(b.samples[j]);
        out.append(d.as_str());
        j += 1;
    }
    proof {
        assert(b.samples@.subrange(0, n as int) =~= b.samples@);
    }
    out.append("],\"stats\":");
    let st = render_stats_json(b);
    out.append(st.as_str());
    out.append("}");
    proof {
        assert(out@ =~= spec_bench_json(b@));
    }
    out
}

fn render_stats_json(b: &WalltimeBenchmark) -> (r: String)
    ensures
        r@ == spec_stats_json(b@),
{
    let mut out: String = "{\"count\":".to_owned();
    let c = render_u64(b.stats.count);
    out.append(c.as_str());
    out.append(",\"mean_ns\":");
    let m = render_u64(b.stats.mean_ns);
    out.append(m.as_str());
    out.append(",\"min_ns\":");
    let mi = render_u64(b.stats.min_ns);
    out.append(mi.as_str());
    out.append(",\"max_ns\":");
    let ma = render_u64(b.stats.max_ns);
    out.append(ma.as_str());
    out.append("}");
    proof {
        assert(out@ =~= spec_stats_json(b@));
    }
    out
}

/// Renders one producer's results record as its JSON file contents.
pub fn render_results_json(r: &WalltimeResults) -> (out: String)
    ensures
        out@ == spec_results_json(r@),
{
    let mut out: String = "{\"creator\":{\"name\":\"".to_owned();
    let esc_name = json_escape(r.creator.name.as_str());
    out.append(esc_name.as_str());
    out.append("\",\"version\":\"");
    let esc_version = json_escape(r.creator.version.as_str());
    out.append(esc_version.as_str());
    out.append("\",\"pid\":");
    let p = render_u64(r.creator.pid as u64);
    out.append(p.as_str());
    out.append("},\"benchmarks\":[");
    let ghost benches_v = r.benchmarks.deep_view();
    let ghost before_benches = out@;
    let n: usize = r.benchmarks.len();
    let mut j: usize = 0;
    while j < n
        invariant
            j <= n,
            n == r.benchmarks@.len(),
            benches_v == r.benchmarks.deep_view(),
            benches_v.len() == r.benchmarks@.len(),
            out@ == before_benches + spec_benches_json(benches_v.subrange(0, j as int)),
        decreases n - j,
    {
        proof {
            assert(benches_v[j as int] == r.benchmarks@[j as int]@);
            assert(benches_v.subrange(0, j + 1).drop_last() =~= benches_v.subrange(0, j as int));
            assert(benches_v.subrange(0, j + 1).last() == benches_v[j as int]);
        }
        if j > 0 {
            out.append(",");
        }
        let bj = render_bench_json(&r.benchmarks[j]);
        out.append(bj.as_str());
        j += 1;
    }
    proof {
        assert(benches_v.subrange(0, n as int) =~= benches_v);
    }
    out.append("]}");
    out
}

/// The total sample count over a producer's aggregated benchmarks.
pub open spec fn spec_total_counts(benches: Seq<WalltimeBenchmarkView>) -> int
    decreases benches.len(),
{
    if benches.len() == 0 {
        0
    } else {
        spec_total_counts(benches.drop_last()) + benches.last().count
    }
}

/// The total number of rounds in the raw records of one producer.
pub open spec fn spec_total_rounds(s: Seq<RawResultView>, pid: u32) -> int
    decreases s.len(),
{
    if s.len() == 0 {
        0
    } else if s.last().pid == pid {
        spec_total_rounds(s.drop_last(), pid) + s.last().times.len()
    } else {
        spec_total_rounds(s.drop_last(), pid)
    }
}

/// Aggregation keeps every sample: each aggregated benchmark holds one
/// sample per raw round, in round order, and the counts in one producer's
/// results record sum to the rounds of that producer's raw files.
pub proof fn lemma_counts_sum(s: Seq<RawResultView>, pid: u32)
    requires
        forall|i: int| 0 <= i < s.len() ==> (#[trigger] s[i]).times.len() <= u64::MAX,
    ensures
        spec_total_counts(spec_group(s, pid)) == spec_total_rounds(s, pid),
    decreases s.len(),
{
    reveal(Seq::filter);
    if s.len() > 0 {
        lemma_counts_sum(s.drop_last(), pid);
        let pred = (|r: RawResultView| r.pid == pid);
        let prev_group = spec_group(s.drop_last(), pid);
        if pred(s.last()) {
            assert(s.filter(pred) == s.drop_last().filter(pred).push(s.last()));
            assert(spec_group(s, pid) =~= prev_group.push(spec_aggregate(s.last())));
            assert(spec_group(s, pid).drop_last() =~= prev_group);
            assert(spec_aggregate(s.last()).count == s.last().times.len());
        } else {
            assert(s.filter(pred) == s.drop_last().filter(pred));
            assert(spec_group(s, pid) =~= prev_group);
        }
    }
}

} // verus!
