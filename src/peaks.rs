use vstd::prelude::*;

verus! {

/// The most peaks that `find_peaks_in_histogram` reports.
pub const MAX_PEAKS: usize = 5;

/// Bucket `i` holds more than each neighbouring bucket (an end bucket has one
/// neighbour).
pub open spec fn is_peak(h: Seq<u32>, i: int) -> bool {
    if i == 0 {
        h[0] > h[1]
    } else if i == 255 {
        h[255] > h[254]
    } else {
        0 < i < 255 && h[i] > h[i - 1] && h[i] > h[i + 1]
    }
}

/// The sum of the peak counts among the buckets below `k`.
pub open spec fn peak_total(h: Seq<u32>, k: int) -> int
    decreases k,
{
    if k <= 0 {
        0
    } else {
        peak_total(h, k - 1) + if is_peak(h, k - 1) {
            h[k - 1] as int
        } else {
            0
        }
    }
}

/// The number of peaks among the buckets below `k`.
pub open spec fn peak_number(h: Seq<u32>, k: int) -> int
    decreases k,
{
    if k <= 0 {
        0
    } else {
        peak_number(h, k - 1) + if is_peak(h, k - 1) {
            1int
        } else {
            0
        }
    }
}

/// The mean count of all peaks, rounded down.
pub open spec fn mean_peak(h: Seq<u32>) -> int {
    peak_total(h, 256) / peak_number(h, 256)
}

/// A peak whose count exceeds the mean peak count.
pub open spec fn is_strong_peak(h: Seq<u32>, i: int) -> bool {
    0 <= i < 256 && is_peak(h, i) && h[i] > mean_peak(h)
}

/// Peak `a` is listed before peak `b`: a larger count first, and of equal
/// counts the lower bucket first.
pub open spec fn listed_before(a: (u8, u32), b: (u8, u32)) -> bool {
    a.1 > b.1 || (a.1 == b.1 && a.0 < b.0)
}

/// `p` is bucket `p.0` of `h` with its count.
pub open spec fn is_entry(h: Seq<u32>, p: (u8, u32)) -> bool {
    p.1 == h[p.0 as int]
}

/// `r` lists strong peaks of `h` in order, with their counts.
pub open spec fn lists_strong_peaks(h: Seq<u32>, r: Seq<(u8, u32)>) -> bool {
    &&& forall|j: int| 0 <= j < r.len() ==> is_strong_peak(h, r[j].0 as int) && is_entry(h, r[j])
    &&& forall|j: int, l: int| 0 <= j < l < r.len() ==> listed_before(r[j], r[l])
}

/// Every strong peak of `h` is listed in `r`, or listed after all of `r`.
pub open spec fn covers_strong_peaks(h: Seq<u32>, r: Seq<(u8, u32)>) -> bool {
    forall|i: int|
        #![trigger is_strong_peak(h, i)]
        is_strong_peak(h, i) ==> (exists|j: int| 0 <= j < r.len() && r[j].0 == i) || (forall|
            j: int,
        |
            0 <= j < r.len() ==> listed_before(r[j], (i as u8, h[i])))
}

/// The peaks of the histogram whose count exceeds the mean peak count, the
/// largest first (of equal counts the lower bucket first), at most five.
pub fn find_peaks_in_histogram(hist: &[u32; 256]) -> (r: Vec<(u8, u32)>)
    ensures
        r@.len() <= MAX_PEAKS,
        lists_strong_peaks(hist@, r@),
        forall|i: int|
            #![trigger is_strong_peak(hist@, i)]
            is_strong_peak(hist@, i) ==> (exists|j: int| 0 <= j < r@.len() && r@[j].0 == i) || (
            r@.len() == MAX_PEAKS && forall|j: int|
                0 <= j < r@.len() ==> listed_before(r@[j], (i as u8, hist@[i]))),
{
    let ghost h = hist@;
    let mut total: u64 = 0;
    let mut number: u64 = 0;
    let mut i: usize = 0;
    while i < 256
        invariant
            i <= 256,
            h == hist@,
            total == peak_total(h, i as int),
            number == peak_number(h, i as int),
            total <= i * 0xffff_ffff,
            number <= i,
        decreases 256 - i,
    {
        if peak_at(hist, i) {
            total = total + hist[i] as u64;
            number = number + 1;
        }
        i = i + 1;
    }
    let mut peaks: Vec<(u8, u32)> = Vec::new();
    if number == 0 {
        assert forall|i: int| #![trigger is_strong_peak(h, i)] !is_strong_peak(h, i) by {
            if 0 <= i < 256 && is_peak(h, i) {
                lemma_peak_counted(h, i, 256);
            }
        }
        return peaks;
    }
    let mean = total / number;
    let mut done = false;
    while peaks.len() < MAX_PEAKS && !done
        invariant
            h == hist@,
            mean == mean_peak(h),
            peaks@.len() <= MAX_PEAKS,
            lists_strong_peaks(h, peaks@),
            covers_strong_peaks(h, peaks@),
            done ==> forall|i: int|
                #![trigger is_strong_peak(h, i)]
                is_strong_peak(h, i) ==> exists|j: int| 0 <= j < peaks@.len() && peaks@[j].0 == i,
        decreases MAX_PEAKS - peaks@.len(), if done {
            0int
        } else {
            1int
        },
    {
        let next = next_peak(hist, mean, &peaks);
        match next {
            None => {
                done = true;
            },
            Some(p) => {
                peaks.push(p);
            },
        }
    }
    peaks
}

/// Whether bucket `i` is a peak.
fn peak_at(hist: &[u32; 256], i: usize) -> (r: bool)
    requires
        i < 256,
    ensures
        r == is_peak(hist@, i as int),
{
    if i == 0 {
        hist[0] > hist[1]
    } else if i == 255 {
        hist[255] > hist[254]
    } else {
        hist[i] > hist[i - 1] && hist[i] > hist[i + 1]
    }
}

/// A peak below `k` is counted among the peaks below `k`.
proof fn lemma_peak_counted(h: Seq<u32>, i: int, k: int)
    requires
        0 <= i < k,
        is_peak(h, i),
    ensures
        peak_number(h, k) >= 1,
    decreases k,
{
    if i < k - 1 {
        lemma_peak_counted(h, i, k - 1);
    }
    lemma_peak_number_nonnegative(h, k - 1);
}

/// There is never a negative number of peaks.
proof fn lemma_peak_number_nonnegative(h: Seq<u32>, k: int)
    ensures
        peak_number(h, k) >= 0,
    decreases k,
{
    if k > 0 {
        lemma_peak_number_nonnegative(h, k - 1);
    }
}

/// The first strong peak, in listing order, that comes after every peak
/// already listed; `None` when there is none.
fn next_peak(hist: &[u32; 256], mean: u64, listed: &Vec<(u8, u32)>) -> (r: Option<(u8, u32)>)
    requires
        mean == mean_peak(hist@),
        lists_strong_peaks(hist@, listed@),
        covers_strong_peaks(hist@, listed@),
    ensures
        r matches Some(p) ==> {
            &&& is_strong_peak(hist@, p.0 as int)
            &&& is_entry(hist@, p)
            &&& forall|j: int| 0 <= j < listed@.len() ==> listed_before(listed@[j], p)
            &&& covers_strong_peaks(hist@, listed@.push(p))
        },
        r is None ==> forall|i: int|
            #![trigger is_strong_peak(hist@, i)]
            is_strong_peak(hist@, i) ==> exists|j: int| 0 <= j < listed@.len() && listed@[j].0 == i,
{
    let ghost h = hist@;
    let n = listed.len();
    let mut best: Option<(u8, u32)> = None;
    let mut i: usize = 0;
    while i < 256
        invariant
            i <= 256,
            h == hist@,
            n == listed@.len(),
            mean == mean_peak(h),
            lists_strong_peaks(h, listed@),
            covers_strong_peaks(h, listed@),
            best matches Some(b) ==> {
                &&& b.0 < i
                &&& is_strong_peak(h, b.0 as int)
                &&& is_entry(h, b)
                &&& forall|j: int| 0 <= j < n ==> listed_before(listed@[j], b)
                &&& forall|u: int|
                    #![trigger is_strong_peak(h, u)]
                    0 <= u < i && u != b.0 && is_strong_peak(h, u) && (forall|j: int|
                        0 <= j < n ==> listed_before(listed@[j], (u as u8, h[u]))) ==> listed_before(
                        b,
                        (u as u8, h[u]),
                    )
            },
            best is None ==> forall|u: int|
                #![trigger is_strong_peak(h, u)]
                0 <= u < i && is_strong_peak(h, u) ==> !(forall|j: int|
                    0 <= j < n ==> listed_before(listed@[j], (u as u8, h[u]))),
        decreases 256 - i,
    {
        let c = hist[i];
        let cand = (i as u8, c);
        if peak_at(hist, i) && c as u64 > mean {
            let after_listed = n == 0 || {
                let last = listed[n - 1];
                last.1 > c || (last.1 == c && last.0 < cand.0)
            };
            proof {
                if after_listed && n > 0 {
                    assert forall|j: int| 0 <= j < n implies listed_before(listed@[j], cand) by {
                        if j < n - 1 {
                            assert(listed_before(listed@[j], listed@[n - 1]));
                        }
                    }
                }
                if !after_listed {
                    assert(!listed_before(listed@[n - 1], cand));
                }
            }
            if after_listed {
                match best {
                    None => {
                        best = Some(cand);
                    },
                    Some(b) => {
                        if c > b.1 {
                            best = Some(cand);
                        }
                    },
                }
            }
        }
        i = i + 1;
    }
    proof {
        match best {
            Some(b) => {
                let ls = listed@.push(b);
                assert forall|u: int|
                    #![trigger is_strong_peak(h, u)]
                    is_strong_peak(h, u) implies (exists|j: int|
                        0 <= j < ls.len() && ls[j].0 == u) || (forall|j: int|
                        0 <= j < ls.len() ==> listed_before(ls[j], (u as u8, h[u]))) by {
                    if u == b.0 {
                        assert(ls[n as int].0 == u);
                    } else if !(exists|j: int| 0 <= j < n && listed@[j].0 == u) {
                        assert(listed_before(b, (u as u8, h[u])));
                        assert forall|j: int| 0 <= j < ls.len() implies listed_before(
                            ls[j],
                            (u as u8, h[u]),
                        ) by {
                            if j < n {
                                assert(ls[j] == listed@[j]);
                            }
                        }
                    } else {
                        let j = choose|j: int| 0 <= j < n && listed@[j].0 == u;
                        assert(ls[j].0 == u);
                    }
                }
            },
            None => {},
        }
    }
    best
}

} // verus!
