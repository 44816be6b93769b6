use vstd::prelude::*;

verus! {

/// What is remembered for one statistic: the readings received since its last
/// update, and the time (nanoseconds since the Unix epoch) of that update.
pub struct SeriesModel {
    pub pending: Seq<u32>,
    pub last_sent: int,
}

/// What the bridge does on a reading: announce the statistic to Home
/// Assistant (first reading of an identifier), and publish an update whose
/// value is the mean of the readings in `flush`.
#[derive(Debug)]
pub struct Reaction {
    pub announce: bool,
    pub flush: Option<Vec<u32>>,
}

/// The mathematical content of a [`Reaction`].
pub struct ReactionModel {
    pub announce: bool,
    pub flush: Option<Seq<u32>>,
}

impl View for Reaction {
    type V = ReactionModel;

    open spec fn view(&self) -> ReactionModel {
        ReactionModel {
            announce: self.announce,
            flush: match self.flush {
                Some(v) => Some(v@),
                None => None,
            },
        }
    }
}

/// A reading as the throttle sees it: the statistic identifier, the reading
/// (bit pattern of an `f32`), and the time it arrived (nanoseconds).
pub struct ReadingModel {
    pub id: Seq<char>,
    pub value: u32,
    pub at: int,
}

/// The throttling period of `secs` seconds, in nanoseconds.
pub open spec fn window_nanos(secs: u32) -> int {
    secs as int * 1_000_000_000
}

/// One reading of `id` at time `now`: the first reading of an identifier is
/// announced and published at once (an update of that one value); later
/// readings are queued, and the queue is flushed into an update when more
/// than `window` nanoseconds have passed since the previous update.
pub open spec fn step(
    m: Map<Seq<char>, SeriesModel>,
    window: int,
    id: Seq<char>,
    value: u32,
    now: int,
) -> (Map<Seq<char>, SeriesModel>, ReactionModel) {
    if !m.contains_key(id) {
        (
            m.insert(id, SeriesModel { pending: seq![], last_sent: now }),
            ReactionModel { announce: true, flush: Some(seq![value]) },
        )
    } else {
        let pending = m[id].pending.push(value);
        if now > m[id].last_sent + window {
            (
                m.insert(id, SeriesModel { pending: seq![], last_sent: now }),
                ReactionModel { announce: false, flush: Some(pending) },
            )
        } else {
            (
                m.insert(id, SeriesModel { pending, last_sent: m[id].last_sent }),
                ReactionModel { announce: false, flush: None },
            )
        }
    }
}

/// The state after a sequence of readings, and the reaction to each.
pub open spec fn run(
    m: Map<Seq<char>, SeriesModel>,
    window: int,
    readings: Seq<ReadingModel>,
) -> (Map<Seq<char>, SeriesModel>, Seq<ReactionModel>)
    decreases readings.len(),
{
    if readings.len() == 0 {
        (m, seq![])
    } else {
        let e = readings[0];
        let (m1, r) = step(m, window, e.id, e.value, e.at);
        let (m2, rs) = run(m1, window, readings.drop_first());
        (m2, seq![r] + rs)
    }
}

/// The readings of `k` waiting in `m` for the next update.
pub open spec fn pending_of(m: Map<Seq<char>, SeriesModel>, k: Seq<char>) -> Seq<u32> {
    if m.contains_key(k) {
        m[k].pending
    } else {
        seq![]
    }
}

/// Everything that the updates of `k` carry, in order, over a sequence of
/// readings.
pub open spec fn delivered(
    m: Map<Seq<char>, SeriesModel>,
    window: int,
    readings: Seq<ReadingModel>,
    k: Seq<char>,
) -> Seq<u32>
    decreases readings.len(),
{
    if readings.len() == 0 {
        seq![]
    } else {
        let e = readings[0];
        let (m1, r) = step(m, window, e.id, e.value, e.at);
        let here = if e.id == k && r.flush is Some {
            r.flush.unwrap()
        } else {
            seq![]
        };
        here + delivered(m1, window, readings.drop_first(), k)
    }
}

/// The values of `k` among `readings`, in order.
pub open spec fn received(readings: Seq<ReadingModel>, k: Seq<char>) -> Seq<u32>
    decreases readings.len(),
{
    if readings.len() == 0 {
        seq![]
    } else if readings[0].id == k {
        seq![readings[0].value] + received(readings.drop_first(), k)
    } else {
        received(readings.drop_first(), k)
    }
}

proof fn lemma_run_at(
    m: Map<Seq<char>, SeriesModel>,
    window: int,
    readings: Seq<ReadingModel>,
    j: int,
)
    requires
        0 <= j < readings.len(),
    ensures
        run(m, window, readings).1.len() == readings.len(),
        j == 0 ==> run(m, window, readings).1[j] == step(
            m,
            window,
            readings[0].id,
            readings[0].value,
            readings[0].at,
        ).1,
        j > 0 ==> run(m, window, readings).1[j] == run(
            step(m, window, readings[0].id, readings[0].value, readings[0].at).0,
            window,
            readings.drop_first(),
        ).1[j - 1],
{
    lemma_run_len(m, window, readings);
    let e = readings[0];
    let m1 = step(m, window, e.id, e.value, e.at).0;
    lemma_run_len(m1, window, readings.drop_first());
}

/// There is one reaction per reading.
pub proof fn lemma_run_len(m: Map<Seq<char>, SeriesModel>, window: int, readings: Seq<ReadingModel>)
    ensures
        run(m, window, readings).1.len() == readings.len(),
    decreases readings.len(),
{
    if readings.len() > 0 {
        let e = readings[0];
        let m1 = step(m, window, e.id, e.value, e.at).0;
        lemma_run_len(m1, window, readings.drop_first());
    }
}

/// No reading is lost or counted twice: for every identifier, the values
/// carried by its updates, followed by those still waiting, are the values
/// that were waiting before, followed by the values received for it.
pub proof fn law_readings_conserved(
    m: Map<Seq<char>, SeriesModel>,
    window_secs: u32,
    readings: Seq<ReadingModel>,
    k: Seq<char>,
)
    ensures
        delivered(m, window_nanos(window_secs), readings, k) + pending_of(
            run(m, window_nanos(window_secs), readings).0,
            k,
        ) == pending_of(m, k) + received(readings, k),
    decreases readings.len(),
{
    let w = window_nanos(window_secs);
    if readings.len() > 0 {
        let e = readings[0];
        let rest = readings.drop_first();
        let m1 = step(m, w, e.id, e.value, e.at).0;
        law_readings_conserved(m1, window_secs, rest, k);
        if e.id == k {
            if m.contains_key(k) {
                let p = m[k].pending;
                assert(p.push(e.value) =~= p + seq![e.value]);
                if e.at > m[k].last_sent + w {
                    assert(pending_of(m1, k) =~= seq![]);
                } else {
                    assert(pending_of(m1, k) =~= p.push(e.value));
                }
                assert((p + seq![e.value]) + received(rest, k) =~= p + (seq![e.value]
                    + received(rest, k)));
            } else {
                assert(pending_of(m1, k) =~= seq![]);
                assert(pending_of(m, k) =~= seq![]);
                assert(seq![] + (seq![e.value] + received(rest, k)) =~= seq![e.value]
                    + received(rest, k));
            }
        } else {
            assert(pending_of(m1, k) == pending_of(m, k));
        }
        let d = delivered(m1, w, rest, k);
        let pf = pending_of(run(m1, w, rest).0, k);
        let here = if step(m, w, e.id, e.value, e.at).1.flush is Some && e.id == k {
            step(m, w, e.id, e.value, e.at).1.flush.unwrap()
        } else {
            seq![]
        };
        assert((here + d) + pf =~= here + (d + pf));
        assert(seq![] + d =~= d);
    }
}

/// Each identifier is announced to Home Assistant exactly once: at its first
/// reading, when the throttle has not seen it before.
pub proof fn law_announced_once(
    m: Map<Seq<char>, SeriesModel>,
    window_secs: u32,
    readings: Seq<ReadingModel>,
    i: int,
)
    requires
        0 <= i < readings.len(),
    ensures
        run(m, window_nanos(window_secs), readings).1[i].announce <==> (!m.contains_key(
            readings[i].id,
        ) && forall|j: int| 0 <= j < i ==> readings[j].id != readings[i].id),
    decreases readings.len(),
{
    let w = window_nanos(window_secs);
    let e = readings[0];
    let rest = readings.drop_first();
    let m1 = step(m, w, e.id, e.value, e.at).0;
    lemma_run_at(m, w, readings, i);
    if i > 0 {
        law_announced_once(m1, window_secs, rest, i - 1);
        let k = readings[i].id;
        assert(rest[i - 1] == readings[i]);
        assert forall|j: int| 0 <= j < i - 1 implies rest[j] == readings[j + 1] by {}
        assert((forall|j: int| 0 <= j < i ==> readings[j].id != k) <==> (e.id != k && forall|
            j: int,
        | 0 <= j < i - 1 ==> rest[j].id != k)) by {
            if e.id != k && forall|j: int| 0 <= j < i - 1 ==> rest[j].id != k {
                assert forall|j: int| 0 <= j < i implies readings[j].id != k by {
                    if j > 0 {
                        assert(readings[j] == rest[j - 1]);
                    }
                }
            }
        }
    }
}

proof fn lemma_updates_after(
    m: Map<Seq<char>, SeriesModel>,
    w: int,
    readings: Seq<ReadingModel>,
    j: int,
    k: Seq<char>,
)
    requires
        w >= 0,
        m.contains_key(k),
        0 <= j < readings.len(),
        readings[j].id == k,
        run(m, w, readings).1[j].flush is Some,
    ensures
        readings[j].at > m[k].last_sent + w,
    decreases readings.len(),
{
    let e = readings[0];
    let rest = readings.drop_first();
    let m1 = step(m, w, e.id, e.value, e.at).0;
    lemma_run_at(m, w, readings, j);
    if j > 0 {
        assert(rest[j - 1] == readings[j]);
        lemma_updates_after(m1, w, rest, j - 1, k);
    }
}

/// Throttling: two updates of one identifier are always more than the
/// throttling period apart.
pub proof fn law_updates_spaced(
    m: Map<Seq<char>, SeriesModel>,
    window_secs: u32,
    readings: Seq<ReadingModel>,
    i: int,
    j: int,
)
    requires
        0 <= i < j < readings.len(),
        readings[i].id == readings[j].id,
        run(m, window_nanos(window_secs), readings).1[i].flush is Some,
        run(m, window_nanos(window_secs), readings).1[j].flush is Some,
    ensures
        readings[j].at > readings[i].at + window_nanos(window_secs),
    decreases readings.len(),
{
    let w = window_nanos(window_secs);
    let e = readings[0];
    let rest = readings.drop_first();
    let m1 = step(m, w, e.id, e.value, e.at).0;
    assert(rest[j - 1] == readings[j]);
    lemma_run_at(m, w, readings, i);
    lemma_run_at(m, w, readings, j);
    if i == 0 {
        lemma_updates_after(m1, w, rest, j - 1, e.id);
    } else {
        assert(rest[i - 1] == readings[i]);
        law_updates_spaced(m1, window_secs, rest, i - 1, j - 1);
    }
}

struct Series {
    id: String,
    pending: Vec<u32>,
    last_sent: i128,
}

spec fn series_model(s: Series) -> SeriesModel {
    SeriesModel { pending: s.pending@, last_sent: s.last_sent as int }
}

spec fn series_map(s: Seq<Series>) -> Map<Seq<char>, SeriesModel>
    decreases s.len(),
{
    if s.len() == 0 {
        Map::empty()
    } else {
        series_map(s.drop_last()).insert(s.last().id@, series_model(s.last()))
    }
}

spec fn distinct_ids(s: Seq<Series>) -> bool {
    forall|i: int, j: int| 0 <= i < j < s.len() ==> s[i].id@ != s[j].id@
}

proof fn lemma_lookup(s: Seq<Series>, i: int)
    requires
        distinct_ids(s),
        0 <= i < s.len(),
    ensures
        series_map(s).contains_key(s[i].id@),
        series_map(s)[s[i].id@] == series_model(s[i]),
    decreases s.len(),
{
    if i < s.len() - 1 {
        lemma_lookup(s.drop_last(), i);
    }
}

proof fn lemma_absent(s: Seq<Series>, k: Seq<char>)
    requires
        forall|i: int| 0 <= i < s.len() ==> s[i].id@ != k,
    ensures
        !series_map(s).contains_key(k),
    decreases s.len(),
{
    if s.len() > 0 {
        lemma_absent(s.drop_last(), k);
    }
}

proof fn lemma_update(s: Seq<Series>, i: int, x: Series)
    requires
        distinct_ids(s),
        0 <= i < s.len(),
        x.id@ == s[i].id@,
    ensures
        series_map(s.update(i, x)) == series_map(s).insert(x.id@, series_model(x)),
    decreases s.len(),
{
    let t = s.update(i, x);
    if i == s.len() - 1 {
        assert(t.drop_last() =~= s.drop_last());
        assert(series_map(t) =~= series_map(s).insert(x.id@, series_model(x)));
    } else {
        assert(t.drop_last() =~= s.drop_last().update(i, x));
        lemma_update(s.drop_last(), i, x);
        assert(series_map(t) =~= series_map(s).insert(x.id@, series_model(x)));
    }
}

/// Remembers, for each statistic identifier, the readings waiting for the
/// next MQTT update and the time of the last one.
pub struct Throttle {
    window_secs: u32,
    series: Vec<Series>,
}

impl View for Throttle {
    type V = Map<Seq<char>, SeriesModel>;

    closed spec fn view(&self) -> Map<Seq<char>, SeriesModel> {
        series_map(self.series@)
    }
}

fn position(series: &Vec<Series>, key: &String) -> (r: Option<usize>)
    ensures
        match r {
            Some(i) => i < series@.len() && series@[i as int].id@ == key@,
            None => forall|i: int| 0 <= i < series@.len() ==> series@[i].id@ != key@,
        },
{
    let mut i: usize = 0;
    while i < series.len()
        invariant
            i <= series@.len(),
            forall|j: int| 0 <= j < i ==> series@[j].id@ != key@,
        decreases series@.len() - i,
    {
        if series[i].id == *key {
            return Some(i);
        }
        i = i + 1;
    }
    None
}

impl Throttle {
    #[verifier::type_invariant]
    spec fn inv(self) -> bool {
        distinct_ids(self.series@)
    }

    /// The throttling period, in nanoseconds.
    pub closed spec fn window(&self) -> int {
        window_nanos(self.window_secs)
    }

    /// A throttle that has seen no reading yet, with a period of
    /// `window_secs` seconds between updates of one statistic.
    pub fn new(window_secs: u32) -> (t: Self)
        ensures
            t@ == Map::<Seq<char>, SeriesModel>::empty(),
            t.window() == window_nanos(window_secs),
    {
        let t = Throttle { window_secs, series: Vec::new() };
        assert(t@ =~= Map::<Seq<char>, SeriesModel>::empty());
        t
    }

    /// Takes the reading `value` of statistic `id`, received at `now`
    /// (nanoseconds since the Unix epoch), and says what to publish.
    pub fn on_reading(&mut self, id: &str, value: u32, now: i128) -> (r: Reaction)
        ensures
            final(self).window() == old(self).window(),
            final(self)@ == step(old(self)@, old(self).window(), id@, value, now as int).0,
            r@ == step(old(self)@, old(self).window(), id@, value, now as int).1,
    {
        proof {
            use_type_invariant(&*self);
        }
        let key = String::from_str(id);
        let mut series: Vec<Series> = Vec::new();
        std::mem::swap(&mut series, &mut self.series);
        let ghost old_series = series@;
        match position(&series, &key) {
            None => {
                proof {
                    lemma_absent(series@, key@);
                }
                series.push(Series { id: key, pending: Vec::new(), last_sent: now });
                proof {
                    assert(series@.drop_last() =~= old_series);
                }
                self.series = series;
                let mut first: Vec<u32> = Vec::new();
                first.push(value);
                Reaction { announce: true, flush: Some(first) }
            },
            Some(i) => {
                proof {
                    lemma_lookup(series@, i as int);
                }
                let entry = series.remove(i);
                let Series { id: entry_id, pending, last_sent } = entry;
                let mut pending = pending;
                pending.push(value);
                let wn: i128 = (self.window_secs as i128) * 1_000_000_000i128;
                let r;
                let updated;
                if last_sent <= i128::MAX - wn && now > last_sent + wn {
                    updated = Series { id: entry_id, pending: Vec::new(), last_sent: now };
                    r = Reaction { announce: false, flush: Some(pending) };
                } else {
                    updated = Series { id: entry_id, pending, last_sent };
                    r = Reaction { announce: false, flush: None };
                }
                series.insert(i, updated);
                proof {
                    assert(series@ =~= old_series.update(i as int, updated));
                    lemma_update(old_series, i as int, updated);
                }
                self.series = series;
                r
            },
        }
    }
}

} // verus!
