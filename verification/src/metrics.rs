//! The registry of weather instruments.
//!
//! For each distinct label set (a location's identity) the registry keeps
//! five instruments: four gauges holding the readings of the most recent
//! successful fetch, and a counter of successful fetches. Series are created
//! lazily on first observation and never evicted; a failed fetch leaves the
//! registry exactly as it was.

use crate::owm_api::{ApiError, CurrentWeather, is_float_token};
use vstd::prelude::*;

verus! {

/// The identity of one series: the provider's location id and display name.
#[derive(Clone, Debug, Hash, PartialEq, Eq)]
pub struct Labels {
    pub location_id: u64,
    pub location: String,
}

/// The five instruments kept for one label set.
pub struct Instruments {
    /// Temperature gauge, degrees Celsius, as decimal text.
    pub temp: String,
    /// Felt-temperature gauge, degrees Celsius, as decimal text.
    pub temp_feel: String,
    /// Humidity gauge, percent.
    pub humidity: i64,
    /// Pressure gauge, hectopascal.
    pub pressure: i64,
    /// Counter of successful fetches for this label set.
    pub req_count: u64,
}

/// The mathematical image of one series: its key and instrument values.
pub struct SeriesModel {
    pub id: u64,
    pub name: Seq<char>,
    pub temp: Seq<char>,
    pub temp_feel: Seq<char>,
    pub humidity: int,
    pub pressure: int,
    pub req_count: u64,
}

/// The image of one stored entry.
pub open spec fn series_model(l: Labels, ins: Instruments) -> SeriesModel {
    SeriesModel {
        id: l.location_id,
        name: l.location@,
        temp: ins.temp@,
        temp_feel: ins.temp_feel@,
        humidity: ins.humidity as int,
        pressure: ins.pressure as int,
        req_count: ins.req_count,
    }
}

/// Whether `m` carries the key `(id, name)`.
pub open spec fn key_match(m: SeriesModel, id: u64, name: Seq<char>) -> bool {
    m.id == id && m.name == name
}

/// The first index at or after `i` whose entry carries `(id, name)`, or
/// `s.len()` if none does.
pub open spec fn find_from(s: Seq<SeriesModel>, id: u64, name: Seq<char>, i: int) -> int
    decreases s.len() - i when 0 <= i <= s.len()
{
    if i >= s.len() {
        s.len() as int
    } else if key_match(s[i], id, name) {
        i
    } else {
        find_from(s, id, name, i + 1)
    }
}

/// The index of the series keyed `(id, name)`, or `s.len()` if there is none.
pub open spec fn find_series(s: Seq<SeriesModel>, id: u64, name: Seq<char>) -> int {
    find_from(s, id, name, 0)
}

/// No two entries share a key.
pub open spec fn unique_keys(s: Seq<SeriesModel>) -> bool {
    forall|i: int, j: int|
        #![trigger s[i], s[j]]
        0 <= i < j < s.len() ==> !(s[i].id == s[j].id && s[i].name == s[j].name)
}

/// The gauge texts of every entry are floating-point number tokens.
pub open spec fn number_texts(s: Seq<SeriesModel>) -> bool {
    forall|i: int|
        0 <= i < s.len() ==> is_float_token(#[trigger] s[i].temp) && is_float_token(s[i].temp_feel)
}

proof fn lemma_find_from_props(s: Seq<SeriesModel>, id: u64, name: Seq<char>, i: int)
    requires
        0 <= i <= s.len(),
    ensures
        i <= find_from(s, id, name, i) <= s.len(),
        find_from(s, id, name, i) < s.len() ==> key_match(s[find_from(s, id, name, i)], id, name),
        forall|j: int| i <= j < find_from(s, id, name, i) ==> !key_match(s[j], id, name),
    decreases s.len() - i,
{
    if i < s.len() && !key_match(s[i], id, name) {
        lemma_find_from_props(s, id, name, i + 1);
    }
}

/// Where the found series sits, what it matches, and that nothing before it
/// matches.
pub proof fn lemma_find_props(s: Seq<SeriesModel>, id: u64, name: Seq<char>)
    ensures
        0 <= find_series(s, id, name) <= s.len(),
        find_series(s, id, name) < s.len() ==> key_match(s[find_series(s, id, name)], id, name),
        forall|j: int| 0 <= j < find_series(s, id, name) ==> !key_match(s[j], id, name),
{
    lemma_find_from_props(s, id, name, 0);
}

proof fn lemma_find_from_pin(s: Seq<SeriesModel>, id: u64, name: Seq<char>, i: int, k: int)
    requires
        0 <= i <= k <= s.len(),
        forall|j: int| i <= j < k ==> !key_match(s[j], id, name),
        k < s.len() ==> key_match(s[k], id, name),
    ensures
        find_from(s, id, name, i) == k,
    decreases k - i,
{
    if i < k {
        lemma_find_from_pin(s, id, name, i + 1, k);
    }
}

/// A scan that finds a match at `k`, after no match before `k`, pins
/// `find_series` to `k`.
pub proof fn lemma_find_pin(s: Seq<SeriesModel>, id: u64, name: Seq<char>, k: int)
    requires
        0 <= k <= s.len(),
        forall|j: int| 0 <= j < k ==> !key_match(s[j], id, name),
        k < s.len() ==> key_match(s[k], id, name),
    ensures
        find_series(s, id, name) == k,
{
    lemma_find_from_pin(s, id, name, 0, k);
}

/// Two sequences with the same keys in the same places are searched alike.
proof fn lemma_find_same_keys(s: Seq<SeriesModel>, t: Seq<SeriesModel>, id: u64, name: Seq<char>)
    requires
        s.len() == t.len(),
        forall|i: int| 0 <= i < s.len() ==> #[trigger] t[i].id == s[i].id && t[i].name == s[i].name,
    ensures
        find_series(t, id, name) == find_series(s, id, name),
{
    let k = find_series(s, id, name);
    lemma_find_props(s, id, name);
    lemma_find_pin(t, id, name, k);
}

// ---------------------------------------------------------------------------
// The effect of one tick on the registry, as a function on models.
// ---------------------------------------------------------------------------

/// The instruments of an existing series after a successful fetch `w`: the
/// gauges take the snapshot's readings and the counter grows by one (it stays
/// put at its ceiling).
pub open spec fn bumped(m: SeriesModel, w: CurrentWeather) -> SeriesModel {
    SeriesModel {
        id: m.id,
        name: m.name,
        temp: w.main.temp@,
        temp_feel: w.main.feels_like@,
        humidity: w.main.humidity as int,
        pressure: w.main.pressure as int,
        req_count: if m.req_count == u64::MAX {
            u64::MAX
        } else {
            (m.req_count + 1) as u64
        },
    }
}

/// The series created by the first successful fetch for its label set.
pub open spec fn fresh_series(w: CurrentWeather) -> SeriesModel {
    SeriesModel {
        id: w.id,
        name: w.name@,
        temp: w.main.temp@,
        temp_feel: w.main.feels_like@,
        humidity: w.main.humidity as int,
        pressure: w.main.pressure as int,
        req_count: 1,
    }
}

/// The registry after recording the successful fetch `w`: the series keyed by
/// `w` is bumped if present, appended if not; every other series is untouched.
pub open spec fn spec_apply(s: Seq<SeriesModel>, w: CurrentWeather) -> Seq<SeriesModel> {
    let k = find_series(s, w.id, w.name@);
    if k < s.len() {
        s.update(k, bumped(s[k], w))
    } else {
        s.push(fresh_series(w))
    }
}

/// The registry after one tick: a successful fetch is recorded, a failed one
/// changes nothing.
pub open spec fn spec_tick(s: Seq<SeriesModel>, r: Result<CurrentWeather, ApiError>) -> Seq<
    SeriesModel,
> {
    match r {
        Ok(w) => spec_apply(s, w),
        Err(_) => s,
    }
}

/// Law: a tick never touches another label set.
///
/// Whatever one successful fetch does, a series with a different key is found
/// at the same place as before, exists afterwards exactly if it existed
/// before, and holds the same instrument values.
pub proof fn lemma_update_isolated(
    s: Seq<SeriesModel>,
    w: CurrentWeather,
    id: u64,
    name: Seq<char>,
)
    requires
        !(id == w.id && name == w.name@),
    ensures
        ({
            let t = spec_apply(s, w);
            let k = find_series(s, id, name);
            let kt = find_series(t, id, name);
            &&& (k < s.len() <==> kt < t.len())
            &&& (k < s.len() ==> kt == k && t[kt] == s[k])
        }),
{
    let t = spec_apply(s, w);
    let k = find_series(s, id, name);
    let m = find_series(s, w.id, w.name@);
    lemma_find_props(s, id, name);
    lemma_find_props(s, w.id, w.name@);
    if m < s.len() {
        // An existing series was bumped; keys are unchanged everywhere.
        lemma_find_same_keys(s, t, id, name);
        if k < s.len() {
            assert(k != m);
        }
    } else {
        // A fresh series was appended; it carries w's key, not (id, name).
        if k < s.len() {
            lemma_find_pin(t, id, name, k);
        } else {
            assert(!key_match(t[s.len() as int], id, name));
            lemma_find_pin(t, id, name, t.len() as int);
        }
    }
}

/// A tick keeps keys unique.
pub proof fn lemma_apply_preserves_unique(s: Seq<SeriesModel>, w: CurrentWeather)
    requires
        unique_keys(s),
    ensures
        unique_keys(spec_apply(s, w)),
{
    let k = find_series(s, w.id, w.name@);
    lemma_find_props(s, w.id, w.name@);
    if k == s.len() {
        let t = s.push(fresh_series(w));
        assert forall|i: int, j: int|
            #![trigger t[i], t[j]]
            0 <= i < j < t.len() implies !(t[i].id == t[j].id && t[i].name == t[j].name) by {
            if j < s.len() {
            } else {
                assert(!key_match(s[i], w.id, w.name@));
            }
        }
    }
}

// ---------------------------------------------------------------------------
// The history laws: what a run of ticks leaves in the registry.
// ---------------------------------------------------------------------------

/// The registry grown from `s` by the ticks of `hist`, oldest first.
pub open spec fn run_ticks(
    s: Seq<SeriesModel>,
    hist: Seq<Result<CurrentWeather, ApiError>>,
) -> Seq<SeriesModel>
    decreases hist.len(),
{
    if hist.len() == 0 {
        s
    } else {
        spec_tick(run_ticks(s, hist.drop_last()), hist.last())
    }
}

/// Whether one tick was a successful fetch for the key `(id, name)`.
pub open spec fn is_success_for(
    r: Result<CurrentWeather, ApiError>,
    id: u64,
    name: Seq<char>,
) -> bool {
    match r {
        Ok(w) => w.id == id && w.name@ == name,
        Err(_) => false,
    }
}

/// How many ticks of `hist` were successful fetches for `(id, name)`.
pub open spec fn count_success_for(
    hist: Seq<Result<CurrentWeather, ApiError>>,
    id: u64,
    name: Seq<char>,
) -> nat
    decreases hist.len(),
{
    if hist.len() == 0 {
        0
    } else {
        count_success_for(hist.drop_last(), id, name) + if is_success_for(
            hist.last(),
            id,
            name,
        ) {
            1nat
        } else {
            0nat
        }
    }
}

/// The most recent successful fetch for `(id, name)` in `hist`, if any.
pub open spec fn last_success_for(
    hist: Seq<Result<CurrentWeather, ApiError>>,
    id: u64,
    name: Seq<char>,
) -> Option<CurrentWeather>
    decreases hist.len(),
{
    if hist.len() == 0 {
        None
    } else if is_success_for(hist.last(), id, name) {
        Some(hist.last()->Ok_0)
    } else {
        last_success_for(hist.drop_last(), id, name)
    }
}

proof fn lemma_count_le_len(hist: Seq<Result<CurrentWeather, ApiError>>, id: u64, name: Seq<char>)
    ensures
        count_success_for(hist, id, name) <= hist.len(),
    decreases hist.len(),
{
    if hist.len() > 0 {
        lemma_count_le_len(hist.drop_last(), id, name);
    }
}

/// Law: after any history of ticks from an empty registry, a label set's
/// series exists exactly if some tick fetched it successfully; its counter
/// equals the number of successful fetches for it, and its gauges hold the
/// readings of the most recent one.
///
/// In particular a failed tick leaves every series unchanged, and ticks for
/// one label set never move another's instruments.
pub proof fn lemma_registry_follows_history(
    hist: Seq<Result<CurrentWeather, ApiError>>,
    id: u64,
    name: Seq<char>,
)
    requires
        hist.len() < u64::MAX,
    ensures
        ({
            let m = run_ticks(Seq::empty(), hist);
            let k = find_series(m, id, name);
            let c = count_success_for(hist, id, name);
            &&& (k < m.len() <==> c > 0)
            &&& (k < m.len() ==> m[k].req_count == c && (match last_success_for(hist, id, name) {
                Some(w) => m[k].temp == w.main.temp@ && m[k].temp_feel == w.main.feels_like@
                    && m[k].humidity == w.main.humidity as int && m[k].pressure
                    == w.main.pressure as int,
                None => false,
            }))
        }),
    decreases hist.len(),
{
    let m = run_ticks(Seq::empty(), hist);
    let k = find_series(m, id, name);
    let c = count_success_for(hist, id, name);
    if hist.len() == 0 {
        lemma_find_props(m, id, name);
    } else {
        let prev = hist.drop_last();
        lemma_registry_follows_history(prev, id, name);
        lemma_count_le_len(prev, id, name);
        let m0 = run_ticks(Seq::empty(), prev);
        let k0 = find_series(m0, id, name);
        lemma_find_props(m0, id, name);
        match hist.last() {
            Err(_) => {},
            Ok(w) => {
                if w.id == id && w.name@ == name {
                    let kw = find_series(m0, w.id, w.name@);
                    assert(kw == k0);
                    if k0 < m0.len() {
                        lemma_find_same_keys(m0, m, id, name);
                        assert(m[k0] == bumped(m0[k0], w));
                    } else {
                        assert(key_match(fresh_series(w), id, name));
                        lemma_find_pin(m, id, name, k0);
                        assert(m[k0] == fresh_series(w));
                        assert(count_success_for(prev, id, name) == 0);
                    }
                } else {
                    lemma_update_isolated(m0, w, id, name);
                }
            },
        }
    }
}

// ---------------------------------------------------------------------------
// The registry itself.
// ---------------------------------------------------------------------------

/// The registry: one entry per label set observed so far, in order of first
/// observation.
pub struct MetricFamilies {
    entries: Vec<(Labels, Instruments)>,
}

impl View for MetricFamilies {
    type V = Seq<SeriesModel>;

    closed spec fn view(&self) -> Seq<SeriesModel> {
        self.entries@.map(|i: int, e: (Labels, Instruments)| series_model(e.0, e.1))
    }
}

impl MetricFamilies {
    /// Keys are unique and the gauge texts are number tokens.
    pub open spec fn wf(self) -> bool {
        &&& unique_keys(self@)
        &&& number_texts(self@)
    }

    /// How many label sets have been observed.
    pub fn series_count(&self) -> (n: usize)
        ensures
            n == self@.len(),
    {
        self.entries.len()
    }

    /// The entry at position `i`, for walking the registry in storage order.
    pub fn entry_at(&self, i: usize) -> (e: &(Labels, Instruments))
        requires
            i < self@.len(),
        ensures
            series_model(e.0, e.1) == self@[i as int],
    {
        proof {
            assert(self@[i as int] == series_model(
                self.entries@[i as int].0,
                self.entries@[i as int].1,
            ));
        }
        &self.entries[i]
    }

    /// Finds the entry keyed `(id, name)`, scanning in storage order.
    fn find_idx(&self, id: u64, name: &String) -> (k: usize)
        ensures
            k == find_series(self@, id, name@),
    {
        let n = self.entries.len();
        let mut i: usize = 0;
        while i < n
            invariant
                i <= n == self.entries@.len(),
                self@.len() == n,
                forall|j: int| 0 <= j < i ==> !key_match(self@[j], id, name@),
                forall|j: int|
                    0 <= j < n ==> #[trigger] self@[j] == series_model(
                        self.entries@[j].0,
                        self.entries@[j].1,
                    ),
            decreases n - i,
        {
            let e = &self.entries[i];
            if e.0.location_id == id && e.0.location == *name {
                proof {
                    lemma_find_pin(self@, id, name@, i as int);
                }
                return i;
            }
            i += 1;
        }
        proof {
            lemma_find_pin(self@, id, name@, n as int);
        }
        n
    }

    /// Records the outcome of one tick's fetch.
    ///
    /// A successful fetch sets the four gauges of its label set to the
    /// snapshot's readings and increments that label set's counter, creating
    /// the series on first observation; every other series is untouched. A
    /// failed fetch leaves the registry exactly as it was.
    pub fn update_weather_for(&mut self, fetched: Result<CurrentWeather, ApiError>)
        requires
            old(self).wf(),
            fetched matches Ok(w) ==> w.wf(),
        ensures
            final(self)@ == spec_tick(old(self)@, fetched),
            final(self).wf(),
    {
        let w = match fetched {
            Ok(w) => w,
            Err(_) => {
                return ;
            },
        };
        let ghost s0 = self@;
        proof {
            lemma_apply_preserves_unique(s0, w);
            lemma_find_props(s0, w.id, w.name@);
        }
        let idx = self.find_idx(w.id, &w.name);
        if idx < self.entries.len() {
            let rc = self.entries[idx].1.req_count;
            let bumped_rc = if rc < u64::MAX {
                rc + 1
            } else {
                rc
            };
            let ghost old_entry = self.entries@[idx as int];
            self.entries[idx].1 = Instruments {
                temp: w.main.temp,
                temp_feel: w.main.feels_like,
                humidity: w.main.humidity,
                pressure: w.main.pressure,
                req_count: bumped_rc,
            };
            proof {
                assert(self@ =~= spec_apply(s0, w));
            }
        } else {
            self.entries.push(
                (
                    Labels { location_id: w.id, location: w.name },
                    Instruments {
                        temp: w.main.temp,
                        temp_feel: w.main.feels_like,
                        humidity: w.main.humidity,
                        pressure: w.main.pressure,
                        req_count: 1,
                    },
                ),
            );
            proof {
                assert(self@ =~= spec_apply(s0, w));
            }
        }
    }

    /// Reads the instruments recorded for `(id, name)`, if that label set has
    /// been observed.
    pub fn lookup(&self, location_id: u64, location: &str) -> (r: Option<&Instruments>)
        ensures
            ({
                let k = find_series(self@, location_id, location@);
                match r {
                    Some(ins) => k < self@.len() && ins.temp@ == self@[k].temp && ins.temp_feel@
                        == self@[k].temp_feel && ins.humidity == self@[k].humidity && ins.pressure
                        == self@[k].pressure && ins.req_count == self@[k].req_count,
                    None => k == self@.len(),
                }
            }),
    {
        let name = location.to_owned();
        let k = self.find_idx(location_id, &name);
        proof {
            lemma_find_props(self@, location_id, location@);
        }
        if k < self.entries.len() {
            proof {
                assert(self@[k as int] == series_model(
                    self.entries@[k as int].0,
                    self.entries@[k as int].1,
                ));
            }
            Some(&self.entries[k].1)
        } else {
            None
        }
    }
}

/// Builds the empty registry every process starts from.
pub fn init_metrics() -> (r: MetricFamilies)
    ensures
        r@ == Seq::<SeriesModel>::empty(),
        r.wf(),
{
    let r = MetricFamilies { entries: Vec::new() };
    proof {
        assert(r@ =~= Seq::<SeriesModel>::empty());
    }
    r
}

} // verus!
