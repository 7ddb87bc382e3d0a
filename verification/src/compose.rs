//! Per-frame assembly: one pass over a frame-stable snapshot of the
//! battle produces every chart input and summary metric of that frame.
//!
//! All ratio-dependent outputs are guarded here: percentages are only
//! produced when the damage total is positive, the pie is skipped when
//! it is zero, and damage-per-action-value falls back to the raw damage
//! when no action value has elapsed.

use crate::charts::av_points_ok;
use crate::charts::av_series_points;
use crate::charts::bar_matches;
use crate::charts::create_bar_data;
use crate::charts::create_pie_segments;
use crate::charts::pie_spans_ok;
use crate::charts::sum_of;
use crate::charts::turn_points_ok;
use crate::charts::turn_series_points;
use crate::charts::Avatar;
use crate::charts::AvRecord;
use crate::charts::BarEntry;
use crate::charts::PieSpan;
use crate::charts::SeriesPoint;
use crate::charts::TurnRecord;
use crate::charts::lemma_element_le_sum;
use crate::format::dec_digits;
use crate::format::digits_string;
use crate::format::format_damage;
use crate::format::format_spec;
use crate::palette::get_character_color;
use crate::palette::palette_color;
use crate::palette::Rgb;
use vstd::prelude::*;

verus! {

/// A frame-stable, read-only view of the battle simulation, with all
/// numeric series index-aligned with the lineup.
pub struct BattleSnapshot {
    pub avatar_lineup: Vec<Avatar>,
    pub real_time_damages: Vec<u64>,
    pub total_damage: u64,
    pub action_value: u64,
    pub last_wave_action_value: u64,
    pub turn_history: Vec<TurnRecord>,
    pub av_history: Vec<AvRecord>,
}

impl BattleSnapshot {
    /// The snapshot accessor's guarantees: damages aligned with the
    /// lineup, every history record aligned with the lineup, the total
    /// equal to the damage sum, and the wave boundary not past the
    /// elapsed action value.
    pub open spec fn wf(self) -> bool {
        &&& self.real_time_damages@.len() == self.avatar_lineup@.len()
        &&& self.total_damage == sum_of(self.real_time_damages@)
        &&& self.last_wave_action_value <= self.action_value
        &&& forall|t: int|
            0 <= t < self.turn_history@.len() ==> (#[trigger] self.turn_history@[t]).avatars_turn_damage@.len()
                == self.avatar_lineup@.len()
        &&& forall|t: int|
            0 <= t < self.av_history@.len() ==> (#[trigger] self.av_history@[t]).avatars_turn_damage@.len()
                == self.avatar_lineup@.len()
    }
}

/// One polyline of a damage plot: the lineup position it belongs to
/// (which also picks its color) and its points.
pub struct SeriesLine {
    pub index: usize,
    pub points: Vec<SeriesPoint>,
}

/// One legend row for a combatant.
pub struct LegendEntry {
    pub name: String,
    pub color: Rgb,
    pub damage_text: String,
    pub percent_tenths: Option<u32>,
    pub dpav_text: String,
    pub dpav_centi: u64,
}

/// Damage per action value: damage divided by elapsed action value,
/// falling back to the raw damage when no action value has elapsed.
pub open spec fn dpav_spec(damage: u64, action_value: u64) -> int {
    if action_value > 0 {
        damage as int / action_value as int
    } else {
        damage as int
    }
}

/// Damage per action value in hundredths, for two-decimal display:
/// the same ratio and fallback, carried at hundredth precision.
pub open spec fn dpav_centi_spec(damage: u64, action_value: u64) -> int {
    if action_value > 0 {
        damage as int * 100 / action_value as int
    } else {
        damage as int * 100
    }
}

/// The display name of a legend row: the combatant's own name, or the
/// trial label and the one-based position for an unnamed combatant.
pub open spec fn legend_name_spec(name: Seq<char>, trial_label: Seq<char>, i: int) -> Seq<char> {
    if name.len() == 0 {
        trial_label + seq![' '] + dec_digits((i + 1) as nat)
    } else {
        name
    }
}

/// The legend row at position `i` describes the combatant at the same
/// lineup position: its display name, its palette color, its formatted
/// damage, its tenth-of-a-percent share of the total when the total is
/// positive, and its formatted damage per action value.
pub open spec fn legend_matches(
    entries: Seq<LegendEntry>,
    snap: BattleSnapshot,
    trial_label: Seq<char>,
    i: int,
) -> bool {
    let damage = snap.real_time_damages@[i];
    &&& (#[trigger] entries[i]).name@ == legend_name_spec(
        snap.avatar_lineup@[i].name@,
        trial_label,
        i,
    )
    &&& entries[i].color == palette_color(i)
    &&& entries[i].damage_text@ == format_spec(damage as nat)
    &&& entries[i].percent_tenths == (if snap.total_damage > 0 {
        Some(((damage as int * 2000 + snap.total_damage) / (2 * snap.total_damage as int)) as u32)
    } else {
        None::<u32>
    })
    &&& entries[i].dpav_text@ == format_spec(dpav_spec(damage, snap.action_value) as nat)
    &&& entries[i].dpav_centi == dpav_centi_spec(damage, snap.action_value)
}

/// Chart-ready inputs and summary metrics of one frame.
pub struct FrameData {
    pub pie: Option<Vec<PieSpan>>,
    pub bars: Vec<BarEntry>,
    pub legend: Vec<LegendEntry>,
    pub turn_series: Vec<SeriesLine>,
    pub av_series: Vec<SeriesLine>,
    pub current_wave_av: u64,
    pub dpav_total_centi: u64,
}

/// Width budget in characters for one bar's axis label: the available
/// pixel width shared evenly among the bars at eight pixels per
/// character, clamped to `[8, 15]`.
pub open spec fn bar_label_width_spec(available_px: int, num_characters: int) -> int {
    let n = if num_characters < 1 {
        1
    } else {
        num_characters
    };
    let per = available_px / n / 8;
    if per < 8 {
        8
    } else if per > 15 {
        15
    } else {
        per
    }
}

/// Character budget for one bar's axis label under the given pixel
/// width and combatant count.
pub fn bar_label_width(available_px: u32, num_characters: usize) -> (w: usize)
    ensures
        w == bar_label_width_spec(available_px as int, num_characters as int),
{
    let n: u64 = if num_characters < 1 {
        1
    } else {
        num_characters as u64
    };
    let per = (available_px as u64) / n / 8;
    if per < 8 {
        8
    } else if per > 15 {
        15
    } else {
        per as usize
    }
}

/// First position in the battle-enemy list holding the given enemy
/// entity, if any; mirrors a first-match search over the list.
pub fn find_enemy_index(entities: &Vec<u64>, enemy: u64) -> (r: Option<usize>)
    ensures
        match r {
            Some(i) => i < entities@.len() && entities@[i as int] == enemy && forall|j: int|
                0 <= j < i ==> entities@[j] != enemy,
            None => forall|j: int| 0 <= j < entities@.len() ==> entities@[j] != enemy,
        },
{
    let n = entities.len();
    for k in 0..n
        invariant
            n == entities@.len(),
            forall|j: int| 0 <= j < k ==> entities@[j] != enemy,
    {
        if entities[k] == enemy {
            return Some(k);
        }
    }
    None
}

/// Assemble one frame: read the snapshot once and produce every chart
/// input and summary metric. The pie is present exactly when the damage
/// total is positive; polyline lists are empty exactly when the
/// corresponding history is empty; the wave metric is the action value
/// elapsed since the last wave boundary.
pub fn compose_frame(snap: &BattleSnapshot, trial_label: &str) -> (frame: FrameData)
    requires
        snap.wf(),
        snap.total_damage <= u64::MAX / 100,
    ensures
        match frame.pie {
            Some(spans) => snap.total_damage > 0 && pie_spans_ok(spans@, snap.real_time_damages@),
            None => snap.total_damage == 0,
        },
        frame.bars@.len() == snap.avatar_lineup@.len(),
        forall|i: int|
            0 <= i < frame.bars@.len() ==> bar_matches(
                frame.bars@,
                snap.real_time_damages@,
                snap.avatar_lineup@,
                i,
            ),
        frame.legend@.len() == snap.avatar_lineup@.len(),
        forall|i: int|
            0 <= i < frame.legend@.len() ==> legend_matches(frame.legend@, *snap, trial_label@, i),
        frame.turn_series@.len() == (if snap.turn_history@.len() == 0 {
            0int
        } else {
            snap.avatar_lineup@.len() as int
        }),
        forall|i: int|
            0 <= i < frame.turn_series@.len() ==> (#[trigger] frame.turn_series@[i]).index == i
                && turn_points_ok(frame.turn_series@[i].points@, snap.turn_history@, i),
        frame.av_series@.len() == (if snap.av_history@.len() == 0 {
            0int
        } else {
            snap.avatar_lineup@.len() as int
        }),
        forall|i: int|
            0 <= i < frame.av_series@.len() ==> (#[trigger] frame.av_series@[i]).index == i
                && av_points_ok(frame.av_series@[i].points@, snap.av_history@, i),
        frame.current_wave_av == snap.action_value - snap.last_wave_action_value,
        frame.dpav_total_centi == dpav_centi_spec(snap.total_damage, snap.action_value),
{
    let n = snap.avatar_lineup.len();

    let pie: Option<Vec<PieSpan>> = if snap.total_damage > 0 {
        Some(create_pie_segments(&snap.real_time_damages))
    } else {
        None
    };

    let bars = create_bar_data(&snap.real_time_damages, &snap.avatar_lineup);

    let mut legend: Vec<LegendEntry> = Vec::new();
    for i in 0..n
        invariant
            snap.wf(),
            snap.total_damage <= u64::MAX / 100,
            n == snap.avatar_lineup@.len(),
            legend@.len() == i,
            forall|j: int| 0 <= j < i ==> legend_matches(legend@, *snap, trial_label@, j),
    {
        proof {
            reveal_strlit(" ");
        }
        let damage = snap.real_time_damages[i];
        let avatar_name = &snap.avatar_lineup[i].name;
        let name: String = if avatar_name.as_str().unicode_len() == 0 {
            let mut t = trial_label.to_owned();
            t.append(" ");
            let digits = digits_string((i as u64) + 1);
            t.append(digits.as_str());
            t
        } else {
            avatar_name.clone()
        };
        let percent_tenths: Option<u32> = if snap.total_damage > 0 {
            proof {
                let t = snap.total_damage as int;
                lemma_element_le_sum(snap.real_time_damages@, i as int);
                vstd::arithmetic::div_mod::lemma_div_is_ordered(
                    damage as int * 2000 + t,
                    t * 2000 + t,
                    2 * t,
                );
                vstd::arithmetic::div_mod::lemma_div_multiples_vanish_fancy(1000, t, 2 * t);
                assert((2 * t) * 1000 + t == t * 2000 + t);
            }
            Some(
                (((damage as u128) * 2000 + (snap.total_damage as u128)) / (2 * (
                snap.total_damage as u128))) as u32,
            )
        } else {
            None
        };
        let dpav = if snap.action_value > 0 {
            damage / snap.action_value
        } else {
            damage
        };
        let dpav_centi: u64 = if snap.action_value > 0 {
            proof {
                lemma_element_le_sum(snap.real_time_damages@, i as int);
                vstd::arithmetic::div_mod::lemma_div_is_ordered(
                    damage as int * 100,
                    snap.total_damage as int * 100,
                    snap.action_value as int,
                );
                vstd::arithmetic::div_mod::lemma_div_is_ordered_by_denominator(
                    snap.total_damage as int * 100,
                    1,
                    snap.action_value as int,
                );
            }
            (((damage as u128) * 100) / (snap.action_value as u128)) as u64
        } else {
            proof {
                lemma_element_le_sum(snap.real_time_damages@, i as int);
            }
            damage * 100
        };
        let ghost prev = legend@;
        legend.push(
            LegendEntry {
                name,
                color: get_character_color(i),
                damage_text: format_damage(damage),
                percent_tenths,
                dpav_text: format_damage(dpav),
                dpav_centi,
            },
        );
        proof {
            assert(legend@[i as int].name@ == legend_name_spec(
                snap.avatar_lineup@[i as int].name@,
                trial_label@,
                i as int,
            ));
            assert(legend@[i as int].color == palette_color(i as int));
            assert(legend@[i as int].damage_text@ == format_spec(
                snap.real_time_damages@[i as int] as nat,
            ));
            assert(legend@[i as int].percent_tenths == (if snap.total_damage > 0 {
                Some(
                    ((snap.real_time_damages@[i as int] as int * 2000 + snap.total_damage) / (2
                        * snap.total_damage as int)) as u32,
                )
            } else {
                None::<u32>
            }));
            assert(legend@[i as int].dpav_centi == dpav_centi_spec(
                snap.real_time_damages@[i as int],
                snap.action_value,
            ));
            assert(legend@[i as int].dpav_text@ == format_spec(
                dpav_spec(snap.real_time_damages@[i as int], snap.action_value) as nat,
            ));
            assert forall|j: int| 0 <= j < i + 1 implies legend_matches(
                legend@,
                *snap,
                trial_label@,
                j,
            ) by {
                if j < i {
                    assert(legend_matches(prev, *snap, trial_label@, j));
                    assert(legend@[j] == prev[j]);
                }
            }
        }
    }

    let mut turn_series: Vec<SeriesLine> = Vec::new();
    if snap.turn_history.len() > 0 {
        for i in 0..n
            invariant
                snap.wf(),
                n == snap.avatar_lineup@.len(),
                turn_series@.len() == i,
                forall|j: int|
                    0 <= j < i ==> (#[trigger] turn_series@[j]).index == j && turn_points_ok(
                        turn_series@[j].points@,
                        snap.turn_history@,
                        j,
                    ),
        {
            let points = turn_series_points(&snap.turn_history, i);
            turn_series.push(SeriesLine { index: i, points });
        }
    }

    let mut av_series: Vec<SeriesLine> = Vec::new();
    if snap.av_history.len() > 0 {
        for i in 0..n
            invariant
                snap.wf(),
                n == snap.avatar_lineup@.len(),
                av_series@.len() == i,
                forall|j: int|
                    0 <= j < i ==> (#[trigger] av_series@[j]).index == j && av_points_ok(
                        av_series@[j].points@,
                        snap.av_history@,
                        j,
                    ),
        {
            let points = av_series_points(&snap.av_history, i);
            av_series.push(SeriesLine { index: i, points });
        }
    }

    let dpav_total_centi: u64 = if snap.action_value > 0 {
        proof {
            vstd::arithmetic::div_mod::lemma_div_is_ordered_by_denominator(
                snap.total_damage as int * 100,
                1,
                snap.action_value as int,
            );
        }
        (((snap.total_damage as u128) * 100) / (snap.action_value as u128)) as u64
    } else {
        snap.total_damage * 100
    };

    FrameData {
        pie,
        bars,
        legend,
        turn_series,
        av_series,
        current_wave_av: snap.action_value - snap.last_wave_action_value,
        dpav_total_centi,
    }
}

} // verus!
