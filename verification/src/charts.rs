//! Chart-input builders: pie spans, bar entries and per-combatant
//! polyline points, all rebuilt from the snapshot every frame.
//!
//! Angles are kept as exact cumulative damage units: a span covering
//! `[start, end)` out of a total `T` stands for the angular interval
//! starting at twelve o'clock and sweeping `(end - start) / T` of the
//! full circle. The application shell converts a span to sampled
//! polygon points; the partition itself is exact here.

use vstd::prelude::*;

verus! {

/// A player-controlled combatant of the lineup.
#[derive(Clone, Debug)]
pub struct Avatar {
    pub name: String,
}

/// One pie slice, as an interval of cumulative damage units.
///
/// With `T` the series total, the slice's angular span is the fraction
/// `(end - start) / T` of the full circle, and `start / T` of the full
/// circle past the twelve o'clock origin.
#[derive(Clone, Copy, PartialEq, Eq, Structural, Debug)]
pub struct PieSpan {
    pub start: u64,
    pub end: u64,
}

/// One labeled bar: a combatant, its damage value, and the palette
/// position used for its fill color.
#[derive(Clone, Debug)]
pub struct BarEntry {
    pub avatar: Avatar,
    pub value: u64,
    pub palette_index: usize,
}

/// One point of a damage polyline.
#[derive(Clone, Copy, PartialEq, Eq, Structural, Debug)]
pub struct SeriesPoint {
    pub x: u64,
    pub y: u64,
}

/// Damage each combatant contributed during one turn, index-aligned
/// with the lineup.
#[derive(Clone, Debug)]
pub struct TurnRecord {
    pub avatars_turn_damage: Vec<u64>,
}

/// Damage each combatant had contributed when a given action value was
/// reached, index-aligned with the lineup.
#[derive(Clone, Debug)]
pub struct AvRecord {
    pub action_value: u64,
    pub avatars_turn_damage: Vec<u64>,
}

/// Sum of a damage series.
pub open spec fn sum_of(s: Seq<u64>) -> int
    decreases s.len(),
{
    if s.len() == 0 {
        0
    } else {
        sum_of(s.drop_last()) + s.last()
    }
}

/// Extending a series by one element adds that element to the sum.
pub proof fn lemma_sum_take_step(s: Seq<u64>, i: int)
    requires
        0 <= i < s.len(),
    ensures
        sum_of(s.take(i + 1)) == sum_of(s.take(i)) + s[i],
{
    assert(s.take(i + 1).drop_last() =~= s.take(i));
    assert(s.take(i + 1).last() == s[i]);
}

/// Every prefix sum is at most the sum of the whole series.
pub proof fn lemma_sum_take_le(s: Seq<u64>, i: int)
    requires
        0 <= i <= s.len(),
    ensures
        sum_of(s.take(i)) <= sum_of(s),
        0 <= sum_of(s.take(i)),
    decreases s.len() - i,
{
    lemma_sum_nonneg(s.take(i));
    if i == s.len() {
        assert(s.take(i) =~= s);
    } else {
        lemma_sum_take_step(s, i);
        lemma_sum_take_le(s, i + 1);
    }
}

/// A sum of unsigned values is nonnegative.
pub proof fn lemma_sum_nonneg(s: Seq<u64>)
    ensures
        0 <= sum_of(s),
    decreases s.len(),
{
    if s.len() > 0 {
        lemma_sum_nonneg(s.drop_last());
    }
}

/// Each element of a series is at most the sum of the series.
pub proof fn lemma_element_le_sum(s: Seq<u64>, i: int)
    requires
        0 <= i < s.len(),
    ensures
        s[i] <= sum_of(s),
    decreases s.len(),
{
    if i == s.len() - 1 {
        lemma_sum_nonneg(s.drop_last());
    } else {
        lemma_element_le_sum(s.drop_last(), i);
        assert(s.drop_last()[i] == s[i]);
    }
}

/// The spans partition `[0, total)`: span `i` runs from the sum of the
/// damages before position `i` to that sum plus the damage at `i`.
pub open spec fn pie_spans_ok(spans: Seq<PieSpan>, damages: Seq<u64>) -> bool {
    &&& spans.len() == damages.len()
    &&& forall|i: int|
        0 <= i < spans.len() ==> (#[trigger] spans[i]).start == sum_of(damages.take(i))
            && spans[i].end == sum_of(damages.take(i + 1))
}

/// Pie slices for a damage series, one per combatant in series order.
///
/// Slice `i` covers the cumulative-damage interval from the sum of the
/// damages before it to that sum plus its own damage, so consecutive
/// slices are contiguous and together they cover `[0, total)` exactly
/// once. The caller must only draw the result when the total is
/// positive; the partition itself is meaningful for any series that
/// fits the machine bound.
pub fn create_pie_segments(damages: &Vec<u64>) -> (spans: Vec<PieSpan>)
    requires
        sum_of(damages@) <= u64::MAX,
    ensures
        pie_spans_ok(spans@, damages@),
{
    let mut spans: Vec<PieSpan> = Vec::new();
    let mut acc: u64 = 0;
    let n = damages.len();
    proof {
        assert(damages@.take(0) =~= Seq::<u64>::empty());
    }
    for k in 0..n
        invariant
            spans@.len() == k,
            acc == sum_of(damages@.take(k as int)),
            n == damages@.len(),
            sum_of(damages@) <= u64::MAX,
            forall|i: int|
                0 <= i < k ==> (#[trigger] spans@[i]).start == sum_of(damages@.take(i))
                    && spans@[i].end == sum_of(damages@.take(i + 1)),
    {
        proof {
            lemma_sum_take_step(damages@, k as int);
            lemma_sum_take_le(damages@, k + 1);
        }
        let next = acc + damages[k];
        spans.push(PieSpan { start: acc, end: next });
        acc = next;
    }
    spans
}

/// Law: the pie slices of a damage series partition the full circle.
///
/// The first slice starts at the origin, each later slice starts where
/// the one before it ends, the last slice ends at the series total, and
/// each slice's span equals its own damage — so the angular spans, each
/// proportional to `damage / total`, sum to exactly one full turn and
/// appear in series order.
pub proof fn lemma_pie_partition(damages: Seq<u64>, spans: Seq<PieSpan>)
    requires
        pie_spans_ok(spans, damages),
    ensures
        forall|i: int| 0 <= i < spans.len() ==> spans[i].end - spans[i].start == damages[i],
        forall|i: int| 0 < i < spans.len() ==> spans[i].start == spans[i - 1].end,
        spans.len() > 0 ==> spans[0].start == 0,
        spans.len() > 0 ==> spans[spans.len() - 1].end == sum_of(damages),
{
    assert forall|i: int| 0 <= i < spans.len() implies spans[i].end - spans[i].start
        == damages[i] by {
        lemma_sum_take_step(damages, i);
    }
    if spans.len() > 0 {
        assert(damages.take(0) =~= Seq::<u64>::empty());
        assert(damages.take(damages.len() as int) =~= damages);
    }
}

/// The bar at position `i` mirrors the combatant and damage at the
/// same position of the lineup, and uses that position as its palette
/// index.
pub open spec fn bar_matches(
    bars: Seq<BarEntry>,
    damages: Seq<u64>,
    avatars: Seq<Avatar>,
    i: int,
) -> bool {
    &&& bars[i].avatar.name@ == avatars[i].name@
    &&& bars[i].value == damages[i]
    &&& bars[i].palette_index == i
}

/// Bar entries for a damage series: one bar per combatant, in lineup
/// order, carrying the combatant, its damage and its lineup position as
/// palette index. No aggregation and no sorting.
pub fn create_bar_data(real_time_damages: &Vec<u64>, avatars: &Vec<Avatar>) -> (bars: Vec<
    BarEntry,
>)
    requires
        real_time_damages@.len() == avatars@.len(),
    ensures
        bars@.len() == avatars@.len(),
        forall|i: int| 0 <= i < bars@.len() ==> bar_matches(bars@, real_time_damages@, avatars@, i),
{
    let mut bars: Vec<BarEntry> = Vec::new();
    let n = avatars.len();
    for k in 0..n
        invariant
            bars@.len() == k,
            n == avatars@.len(),
            real_time_damages@.len() == avatars@.len(),
            forall|i: int| 0 <= i < k ==> bar_matches(bars@, real_time_damages@, avatars@, i),
    {
        let name = avatars[k].name.clone();
        let ghost prev = bars@;
        bars.push(BarEntry { avatar: Avatar { name }, value: real_time_damages[k], palette_index: k });
        proof {
            assert forall|i: int| 0 <= i < k + 1 implies bar_matches(
                bars@,
                real_time_damages@,
                avatars@,
                i,
            ) by {
                if i < k {
                    assert(bar_matches(prev, real_time_damages@, avatars@, i));
                    assert(bars@[i] == prev[i]);
                }
            }
        }
    }
    bars
}

/// The turn-indexed polyline points for the combatant at lineup
/// position `idx`: point `t` pairs the one-based turn number with that
/// combatant's damage contribution in that turn.
pub open spec fn turn_points_ok(points: Seq<SeriesPoint>, history: Seq<TurnRecord>, idx: int) -> bool {
    &&& points.len() == history.len()
    &&& forall|t: int|
        0 <= t < points.len() ==> (#[trigger] points[t]).x == t + 1 && points[t].y
            == history[t].avatars_turn_damage@[idx]
}

/// The action-value-indexed polyline points for the combatant at lineup
/// position `idx`: point `t` pairs the cumulative action value at
/// history entry `t` with that combatant's damage at that point.
pub open spec fn av_points_ok(points: Seq<SeriesPoint>, history: Seq<AvRecord>, idx: int) -> bool {
    &&& points.len() == history.len()
    &&& forall|t: int|
        0 <= t < points.len() ==> (#[trigger] points[t]).x == history[t].action_value && points[t].y
            == history[t].avatars_turn_damage@[idx]
}

/// Turn-indexed polyline for one combatant: point `t` has x equal to
/// the one-based turn number and y equal to the damage that combatant
/// contributed in that turn. An empty history yields no points.
pub fn turn_series_points(turn_history: &Vec<TurnRecord>, idx: usize) -> (points: Vec<SeriesPoint>)
    requires
        forall|t: int|
            0 <= t < turn_history@.len() ==> idx < turn_history@[t].avatars_turn_damage@.len(),
    ensures
        turn_points_ok(points@, turn_history@, idx as int),
{
    let mut points: Vec<SeriesPoint> = Vec::new();
    let n = turn_history.len();
    for k in 0..n
        invariant
            points@.len() == k,
            n == turn_history@.len(),
            forall|t: int|
                0 <= t < turn_history@.len() ==> idx < turn_history@[t].avatars_turn_damage@.len(),
            forall|t: int|
                0 <= t < k ==> (#[trigger] points@[t]).x == t + 1 && points@[t].y
                    == turn_history@[t].avatars_turn_damage@[idx as int],
    {
        let y = turn_history[k].avatars_turn_damage[idx];
        points.push(SeriesPoint { x: (k as u64) + 1, y });
    }
    points
}

/// Action-value-indexed polyline for one combatant: point `t` has x
/// equal to the cumulative action value at history entry `t` and y
/// equal to the damage that combatant had contributed at that point.
/// An empty history yields no points.
pub fn av_series_points(av_history: &Vec<AvRecord>, idx: usize) -> (points: Vec<SeriesPoint>)
    requires
        forall|t: int|
            0 <= t < av_history@.len() ==> idx < av_history@[t].avatars_turn_damage@.len(),
    ensures
        av_points_ok(points@, av_history@, idx as int),
{
    let mut points: Vec<SeriesPoint> = Vec::new();
    let n = av_history.len();
    for k in 0..n
        invariant
            points@.len() == k,
            n == av_history@.len(),
            forall|t: int|
                0 <= t < av_history@.len() ==> idx < av_history@[t].avatars_turn_damage@.len(),
            forall|t: int|
                0 <= t < k ==> (#[trigger] points@[t]).x == av_history@[t].action_value && points@[t].y
                    == av_history@[t].avatars_turn_damage@[idx as int],
    {
        let rec = &av_history[k];
        let y = rec.avatars_turn_damage[idx];
        points.push(SeriesPoint { x: rec.action_value, y });
    }
    points
}

} // verus!
