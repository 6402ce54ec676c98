//! Merging back-to-back forecast periods into reporting windows.
use vstd::prelude::*;

use crate::period::{bikeable, is_bikeable, ForecastPeriod};
use crate::wind::{parse_wind_speed, wind_speed_of};

verus! {

/// A stretch of one or more back-to-back periods, with the worst of each
/// reading over the stretch.
pub struct ReportingWindow {
    pub start_time: String,
    pub end_time: String,
    pub max_temperature: i64,
    pub max_precipitation_probability: i64,
    pub max_wind_speed: u8,
}

/// What a reporting window says, as plain values.
pub struct WindowView {
    pub start: Seq<char>,
    pub end: Seq<char>,
    pub temperature: int,
    pub precipitation: int,
    pub wind: int,
}

impl View for ReportingWindow {
    type V = WindowView;

    open spec fn view(&self) -> WindowView {
        WindowView {
            start: self.start_time@,
            end: self.end_time@,
            temperature: self.max_temperature as int,
            precipitation: self.max_precipitation_probability as int,
            wind: self.max_wind_speed as int,
        }
    }
}

pub open spec fn windows_view(ws: Seq<ReportingWindow>) -> Seq<WindowView> {
    ws.map_values(|w: ReportingWindow| w@)
}

pub open spec fn max_of(a: int, b: int) -> int {
    if a >= b {
        a
    } else {
        b
    }
}

/// The window made of one period alone.
pub open spec fn seed(p: ForecastPeriod) -> WindowView {
    WindowView {
        start: p.start_time@,
        end: p.end_time@,
        temperature: p.temperature as int,
        precipitation: match p.precipitation_probability {
            Some(v) => v as int,
            None => 0,
        },
        wind: wind_speed_of(p.wind_speed@) as int,
    }
}

/// `w` added after the windows `ws`: it extends the last window when that one
/// ends exactly where `w` starts, and is appended as a window of its own
/// otherwise.
pub open spec fn absorb(ws: Seq<WindowView>, w: WindowView) -> Seq<WindowView> {
    if ws.len() > 0 && ws.last().end == w.start {
        let prev = ws.last();
        ws.drop_last().push(
            WindowView {
                start: prev.start,
                end: w.end,
                temperature: max_of(prev.temperature, w.temperature),
                precipitation: max_of(prev.precipitation, w.precipitation),
                wind: max_of(prev.wind, w.wind),
            },
        )
    } else {
        ws.push(w)
    }
}

/// The windows that a chronological sequence of windows merges into, taken
/// one by one from the first.
pub open spec fn merge_windows(ws: Seq<WindowView>) -> Seq<WindowView>
    decreases ws.len(),
{
    if ws.len() == 0 {
        Seq::empty()
    } else {
        absorb(merge_windows(ws.drop_last()), ws.last())
    }
}

/// The windows that a sequence of periods merges into.
pub open spec fn coalesced(ps: Seq<ForecastPeriod>) -> Seq<WindowView> {
    merge_windows(ps.map_values(|p: ForecastPeriod| seed(p)))
}

pub open spec fn has_precipitation(ps: Seq<ForecastPeriod>) -> bool {
    forall|i: int| 0 <= i < ps.len() ==> (#[trigger] ps[i]).precipitation_probability.is_some()
}

/// The good hours of a forecast, in their order.
pub open spec fn bikeable_periods(ps: Seq<ForecastPeriod>) -> Seq<ForecastPeriod> {
    ps.filter(|p: ForecastPeriod| bikeable(p))
}

/// No window ends where the next one starts.
pub open spec fn apart(ws: Seq<WindowView>) -> bool {
    forall|i: int| 0 <= i < ws.len() - 1 ==> (#[trigger] ws[i]).end != ws[i + 1].start
}

fn max_i64(a: i64, b: i64) -> (r: i64)
    ensures
        r as int == max_of(a as int, b as int),
{
    if a >= b {
        a
    } else {
        b
    }
}

fn max_u8(a: u8, b: u8) -> (r: u8)
    ensures
        r as int == max_of(a as int, b as int),
{
    if a >= b {
        a
    } else {
        b
    }
}

/// Adds one period after the windows built so far.
fn absorb_period(tp: &mut Vec<ReportingWindow>, cur: &ForecastPeriod)
    requires
        cur.precipitation_probability.is_some(),
    ensures
        windows_view(final(tp)@) == absorb(windows_view(old(tp)@), seed(*cur)),
{
    let ghost before = windows_view(tp@);
    let precipitation = match cur.precipitation_probability {
        Some(v) => v,
        None => 0,
    };
    let wind = parse_wind_speed(cur.wind_speed.as_str());
    if tp.len() > 0 && tp[tp.len() - 1].end_time == cur.start_time {
        let mut prev = tp.pop().unwrap();
        assert(windows_view(tp@) =~= before.drop_last());
        prev.end_time = cur.end_time.clone();
        prev.max_temperature = max_i64(prev.max_temperature, cur.temperature);
        prev.max_precipitation_probability = max_i64(
            prev.max_precipitation_probability,
            precipitation,
        );
        prev.max_wind_speed = max_u8(prev.max_wind_speed, wind);
        tp.push(prev);
        assert(windows_view(tp@) =~= absorb(before, seed(*cur)));
    } else {
        tp.push(
            ReportingWindow {
                start_time: cur.start_time.clone(),
                end_time: cur.end_time.clone(),
                max_temperature: cur.temperature,
                max_precipitation_probability: precipitation,
                max_wind_speed: wind,
            },
        );
        assert(windows_view(tp@) =~= absorb(before, seed(*cur)));
    }
}

/// Merges chronological periods into windows: each run of periods in which
/// every period starts exactly where the one before it ends becomes one
/// window, which spans the run and holds the maximum temperature,
/// precipitation chance and wind speed over it. Every period must carry its
/// precipitation chance, as every good hour does.
pub fn coalesce(periods: &Vec<ForecastPeriod>) -> (r: Vec<ReportingWindow>)
    requires
        has_precipitation(periods@),
    ensures
        windows_view(r@) == coalesced(periods@),
{
    let ghost seeds = periods@.map_values(|p: ForecastPeriod| seed(p));
    let mut tp: Vec<ReportingWindow> = Vec::new();
    let mut i: usize = 0;
    while i < periods.len()
        invariant
            i <= periods.len(),
            has_precipitation(periods@),
            seeds == periods@.map_values(|p: ForecastPeriod| seed(p)),
            windows_view(tp@) == merge_windows(seeds.take(i as int)),
        decreases periods.len() - i,
    {
        assert(periods@[i as int].precipitation_probability.is_some());
        absorb_period(&mut tp, &periods[i]);
        assert(seeds.take(i + 1).drop_last() =~= seeds.take(i as int));
        i = i + 1;
    }
    assert(seeds.take(i as int) =~= seeds);
    tp
}

/// The reporting windows of a whole forecast: its good hours, merged.
pub fn bike_windows(periods: &Vec<ForecastPeriod>) -> (r: Vec<ReportingWindow>)
    ensures
        windows_view(r@) == coalesced(bikeable_periods(periods@)),
{
    let ghost ps = periods@;
    let mut tp: Vec<ReportingWindow> = Vec::new();
    let mut i: usize = 0;
    while i < periods.len()
        invariant
            i <= periods.len(),
            ps == periods@,
            windows_view(tp@) == coalesced(bikeable_periods(ps.take(i as int))),
        decreases periods.len() - i,
    {
        let cur = &periods[i];
        let ghost before = bikeable_periods(ps.take(i as int));
        let ghost after = bikeable_periods(ps.take(i + 1));
        proof {
            assert(ps.take(i + 1).drop_last() =~= ps.take(i as int));
            reveal(Seq::filter);
        }
        if is_bikeable(cur) {
            assert(after == before.push(*cur));
            absorb_period(&mut tp, cur);
            assert(after.map_values(|p: ForecastPeriod| seed(p)).drop_last() =~= before.map_values(
                |p: ForecastPeriod| seed(p),
            ));
        } else {
            assert(after == before);
        }
        i = i + 1;
    }
    assert(ps.take(i as int) =~= ps);
    tp
}

/// Merging never leaves two windows that touch.
pub proof fn lemma_merged_apart(ws: Seq<WindowView>)
    ensures
        apart(merge_windows(ws)),
    decreases ws.len(),
{
    if ws.len() > 0 {
        let m = merge_windows(ws.drop_last());
        lemma_merged_apart(ws.drop_last());
        let r = absorb(m, ws.last());
        assert forall|i: int| 0 <= i < r.len() - 1 implies (#[trigger] r[i]).end != r[i + 1].start by {
            assert(m[i].end != m[i + 1].start || i + 1 == m.len());
        }
    }
}

/// Windows of which none touches the next are left as they are by merging.
pub proof fn lemma_apart_merge_unchanged(ws: Seq<WindowView>)
    requires
        apart(ws),
    ensures
        merge_windows(ws) == ws,
    decreases ws.len(),
{
    if ws.len() > 0 {
        let d = ws.drop_last();
        assert(apart(d)) by {
            assert forall|i: int| 0 <= i < d.len() - 1 implies (#[trigger] d[i]).end != d[i + 1].start by {
                assert(ws[i].end != ws[i + 1].start);
            }
        }
        lemma_apart_merge_unchanged(d);
        if d.len() > 0 {
            assert(ws[d.len() - 1].end != ws[d.len() as int].start);
        }
        assert(d.push(ws.last()) =~= ws);
    }
}

/// No window ends where the next one starts, and merging the windows once
/// more, each taken as a single period, gives them back unchanged.
pub proof fn law_coalesce_idempotent(ps: Seq<ForecastPeriod>)
    ensures
        apart(coalesced(ps)),
        merge_windows(coalesced(ps)) == coalesced(ps),
{
    lemma_merged_apart(ps.map_values(|p: ForecastPeriod| seed(p)));
    lemma_apart_merge_unchanged(coalesced(ps));
}

/// No periods give no windows.
pub proof fn law_coalesce_empty()
    ensures
        coalesced(Seq::empty()) == Seq::<WindowView>::empty(),
{
    assert(Seq::<ForecastPeriod>::empty().map_values(|p: ForecastPeriod| seed(p)) =~= Seq::empty());
}

/// Two periods of which the first ends exactly where the second starts make
/// one window, from the first's start to the second's end, with the higher
/// of each reading.
pub proof fn law_coalesce_adjacent(earlier: ForecastPeriod, later: ForecastPeriod)
    requires
        earlier.end_time@ == later.start_time@,
    ensures
        coalesced(seq![earlier, later]) == seq![
            WindowView {
                start: earlier.start_time@,
                end: later.end_time@,
                temperature: max_of(earlier.temperature as int, later.temperature as int),
                precipitation: max_of(seed(earlier).precipitation, seed(later).precipitation),
                wind: max_of(seed(earlier).wind, seed(later).wind),
            },
        ],
{
    let s = seq![earlier, later].map_values(|p: ForecastPeriod| seed(p));
    assert(s.drop_last() =~= seq![seed(earlier)]);
    assert(s.drop_last().drop_last() =~= Seq::<WindowView>::empty());
    assert(merge_windows(s.drop_last().drop_last()) == Seq::<WindowView>::empty());
    assert(Seq::<WindowView>::empty().push(seed(earlier)) =~= seq![seed(earlier)]);
    assert(merge_windows(s.drop_last()) =~= seq![seed(earlier)]);
    assert(coalesced(seq![earlier, later]) =~= seq![
        WindowView {
            start: earlier.start_time@,
            end: later.end_time@,
            temperature: max_of(earlier.temperature as int, later.temperature as int),
            precipitation: max_of(seed(earlier).precipitation, seed(later).precipitation),
            wind: max_of(seed(earlier).wind, seed(later).wind),
        },
    ]);
}

/// Two periods with a gap between them stay two windows, in their order.
pub proof fn law_coalesce_gap(earlier: ForecastPeriod, later: ForecastPeriod)
    requires
        earlier.end_time@ != later.start_time@,
    ensures
        coalesced(seq![earlier, later]) == seq![seed(earlier), seed(later)],
{
    let s = seq![earlier, later].map_values(|p: ForecastPeriod| seed(p));
    assert(s.drop_last() =~= seq![seed(earlier)]);
    assert(s.drop_last().drop_last() =~= Seq::<WindowView>::empty());
    assert(merge_windows(s.drop_last().drop_last()) == Seq::<WindowView>::empty());
    assert(Seq::<WindowView>::empty().push(seed(earlier)) =~= seq![seed(earlier)]);
    assert(merge_windows(s.drop_last()) =~= seq![seed(earlier)]);
    assert(coalesced(seq![earlier, later]) =~= seq![seed(earlier), seed(later)]);
}

proof fn lemma_absorb_after(a: Seq<WindowView>, b: Seq<WindowView>, w: WindowView)
    requires
        b.len() > 0,
    ensures
        absorb(a + b, w) == a + absorb(b, w),
{
    assert((a + b).last() == b.last());
    assert((a + b).drop_last() =~= a + b.drop_last());
    if b.last().end == w.start {
        let prev = b.last();
        let joined = WindowView {
            start: prev.start,
            end: w.end,
            temperature: max_of(prev.temperature, w.temperature),
            precipitation: max_of(prev.precipitation, w.precipitation),
            wind: max_of(prev.wind, w.wind),
        };
        assert((a + b.drop_last()).push(joined) =~= a + b.drop_last().push(joined));
    } else {
        assert((a + b).push(w) =~= a + b.push(w));
    }
}

proof fn lemma_merge_concat(s1: Seq<WindowView>, s2: Seq<WindowView>)
    requires
        s1.len() == 0 || s2.len() == 0 || s1.last().end != s2[0].start,
    ensures
        merge_windows(s1 + s2) == merge_windows(s1) + merge_windows(s2),
    decreases s2.len(),
{
    if s2.len() == 0 {
        assert(s1 + s2 =~= s1);
        assert(merge_windows(s1) + merge_windows(s2) =~= merge_windows(s1));
    } else {
        let w = s2.last();
        assert((s1 + s2).drop_last() =~= s1 + s2.drop_last());
        assert((s1 + s2).last() == w);
        if s2.len() == 1 {
            assert(s1 + s2.drop_last() =~= s1);
            assert(s2.drop_last() =~= Seq::<WindowView>::empty());
            assert(merge_windows(s2.drop_last()) == Seq::<WindowView>::empty());
            assert(Seq::<WindowView>::empty().push(w) =~= seq![w]);
            assert(merge_windows(s2) =~= seq![w]);
            if s1.len() > 0 {
                assert(merge_windows(s1).last().end == s1.last().end);
            }
            assert(merge_windows(s1 + s2) =~= merge_windows(s1) + merge_windows(s2));
        } else {
            lemma_merge_concat(s1, s2.drop_last());
            lemma_absorb_after(merge_windows(s1), merge_windows(s2.drop_last()), w);
        }
    }
}

/// Order is kept: periods that fall into two runs, the first of which does
/// not end where the second starts, give the first run's windows followed by
/// the second run's.
pub proof fn law_coalesce_split(ps1: Seq<ForecastPeriod>, ps2: Seq<ForecastPeriod>)
    requires
        ps1.len() == 0 || ps2.len() == 0 || ps1.last().end_time@ != ps2[0].start_time@,
    ensures
        coalesced(ps1 + ps2) == coalesced(ps1) + coalesced(ps2),
{
    let f = |p: ForecastPeriod| seed(p);
    assert((ps1 + ps2).map_values(f) =~= ps1.map_values(f) + ps2.map_values(f));
    lemma_merge_concat(ps1.map_values(f), ps2.map_values(f));
}

/// Each window starts where the one before it ends.
pub open spec fn back_to_back(ws: Seq<WindowView>) -> bool {
    forall|i: int| 0 <= i < ws.len() - 1 ==> (#[trigger] ws[i]).end == ws[i + 1].start
}

/// The one window that a nonempty back-to-back run makes: from its first
/// start to its last end, with the maximum of each reading over the run.
pub open spec fn run_window(ws: Seq<WindowView>) -> WindowView
    decreases ws.len(),
{
    if ws.len() <= 1 {
        ws[0]
    } else {
        let w = run_window(ws.drop_last());
        WindowView {
            start: w.start,
            end: ws.last().end,
            temperature: max_of(w.temperature, ws.last().temperature),
            precipitation: max_of(w.precipitation, ws.last().precipitation),
            wind: max_of(w.wind, ws.last().wind),
        }
    }
}

proof fn lemma_merge_run(ws: Seq<WindowView>)
    requires
        ws.len() > 0,
        back_to_back(ws),
    ensures
        merge_windows(ws) == seq![run_window(ws)],
        run_window(ws).end == ws.last().end,
    decreases ws.len(),
{
    let d = ws.drop_last();
    if ws.len() == 1 {
        assert(merge_windows(d) == Seq::<WindowView>::empty());
        assert(Seq::<WindowView>::empty().push(ws[0]) =~= seq![ws[0]]);
    } else {
        assert(back_to_back(d)) by {
            assert forall|i: int| 0 <= i < d.len() - 1 implies (#[trigger] d[i]).end == d[i + 1].start by {
                assert(ws[i].end == ws[i + 1].start);
            }
        }
        lemma_merge_run(d);
        assert(ws[d.len() - 1].end == ws[d.len() as int].start);
        assert(seq![run_window(d)].drop_last().push(run_window(ws)) =~= seq![run_window(ws)]);
    }
}

/// A nonempty run of periods, each starting exactly where the one before it
/// ends, makes exactly one window: from the run's first start to its last
/// end, with the maximum temperature, precipitation chance and wind speed
/// over the run. With `law_coalesce_split`, this makes the windows exactly
/// the maximal back-to-back runs of the input, in order.
pub proof fn law_coalesce_run(ps: Seq<ForecastPeriod>)
    requires
        ps.len() > 0,
        forall|i: int| 0 <= i < ps.len() - 1 ==> (#[trigger] ps[i]).end_time@ == ps[i + 1].start_time@,
    ensures
        coalesced(ps) == seq![run_window(ps.map_values(|p: ForecastPeriod| seed(p)))],
        run_window(ps.map_values(|p: ForecastPeriod| seed(p))).start == ps[0].start_time@,
        run_window(ps.map_values(|p: ForecastPeriod| seed(p))).end == ps.last().end_time@,
{
    let ws = ps.map_values(|p: ForecastPeriod| seed(p));
    assert(back_to_back(ws)) by {
        assert forall|i: int| 0 <= i < ws.len() - 1 implies (#[trigger] ws[i]).end == ws[i + 1].start by {
            assert(ps[i].end_time@ == ps[i + 1].start_time@);
        }
    }
    lemma_merge_run(ws);
    lemma_run_start(ws);
}

proof fn lemma_run_start(ws: Seq<WindowView>)
    requires
        ws.len() > 0,
    ensures
        run_window(ws).start == ws[0].start,
    decreases ws.len(),
{
    if ws.len() > 1 {
        lemma_run_start(ws.drop_last());
    }
}

} // verus!
