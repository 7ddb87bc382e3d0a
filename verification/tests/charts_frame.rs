use combat_overlay::charts::{
    av_series_points, create_bar_data, create_pie_segments, turn_series_points, Avatar, AvRecord,
    PieSpan, TurnRecord,
};
use combat_overlay::compose::{bar_label_width, compose_frame, find_enemy_index, BattleSnapshot};
use combat_overlay::palette::get_character_color;

fn avatars(names: &[&str]) -> Vec<Avatar> {
    names.iter().map(|n| Avatar { name: n.to_string() }).collect()
}

#[test]
fn pie_segments_partition_the_total() {
    let spans = create_pie_segments(&vec![1, 2, 3]);
    assert_eq!(
        spans,
        vec![
            PieSpan { start: 0, end: 1 },
            PieSpan { start: 1, end: 3 },
            PieSpan { start: 3, end: 6 },
        ]
    );
    // Contiguous spans, in series order, covering the full circle once:
    // the spans sum to the total, so the angular fractions sum to one.
    let total: u64 = 6;
    assert_eq!(spans.iter().map(|s| s.end - s.start).sum::<u64>(), total);
    assert_eq!(spans.first().unwrap().start, 0);
    assert_eq!(spans.last().unwrap().end, total);
}

#[test]
fn pie_segments_of_empty_series() {
    assert_eq!(create_pie_segments(&vec![]), vec![]);
}

#[test]
fn pie_segments_keep_zero_damage_combatants() {
    let spans = create_pie_segments(&vec![5, 0, 5]);
    assert_eq!(spans[1], PieSpan { start: 5, end: 5 });
    assert_eq!(spans.len(), 3);
}

#[test]
fn bars_preserve_order_and_alignment() {
    let bars = create_bar_data(&vec![50, 70, 10], &avatars(&["Seele", "Bronya", "Pela"]));
    assert_eq!(bars.len(), 3);
    for (i, bar) in bars.iter().enumerate() {
        assert_eq!(bar.palette_index, i);
    }
    assert_eq!(bars[0].avatar.name, "Seele");
    assert_eq!(bars[0].value, 50);
    assert_eq!(bars[1].avatar.name, "Bronya");
    assert_eq!(bars[1].value, 70);
    assert_eq!(bars[2].avatar.name, "Pela");
    assert_eq!(bars[2].value, 10);
}

#[test]
fn bars_of_empty_lineup() {
    assert_eq!(create_bar_data(&vec![], &avatars(&[])).len(), 0);
}

#[test]
fn turn_series_is_one_based_and_aligned() {
    let history = vec![
        TurnRecord { avatars_turn_damage: vec![1, 2] },
        TurnRecord { avatars_turn_damage: vec![3, 4] },
    ];
    let first = turn_series_points(&history, 0);
    assert_eq!(first.iter().map(|p| (p.x, p.y)).collect::<Vec<_>>(), vec![(1, 1), (2, 3)]);
    let second = turn_series_points(&history, 1);
    assert_eq!(second.iter().map(|p| (p.x, p.y)).collect::<Vec<_>>(), vec![(1, 2), (2, 4)]);
}

#[test]
fn empty_history_yields_no_points() {
    assert_eq!(turn_series_points(&vec![], 0).len(), 0);
    assert_eq!(av_series_points(&vec![], 0).len(), 0);
}

#[test]
fn av_series_uses_action_value_as_x() {
    let history = vec![
        AvRecord { action_value: 150, avatars_turn_damage: vec![10, 20] },
        AvRecord { action_value: 300, avatars_turn_damage: vec![30, 40] },
    ];
    let second = av_series_points(&history, 1);
    assert_eq!(second.iter().map(|p| (p.x, p.y)).collect::<Vec<_>>(), vec![(150, 20), (300, 40)]);
}

#[test]
fn bar_label_width_is_clamped() {
    assert_eq!(bar_label_width(800, 4), 15);
    assert_eq!(bar_label_width(100, 4), 8);
    assert_eq!(bar_label_width(400, 5), 10);
    // An empty lineup counts as one bar.
    assert_eq!(bar_label_width(64, 0), 8);
}

#[test]
fn enemy_lookup_finds_first_match() {
    let entities = vec![10, 20, 10];
    assert_eq!(find_enemy_index(&entities, 10), Some(0));
    assert_eq!(find_enemy_index(&entities, 20), Some(1));
    assert_eq!(find_enemy_index(&entities, 30), None);
}

fn sample_snapshot() -> BattleSnapshot {
    BattleSnapshot {
        avatar_lineup: avatars(&["Seele", ""]),
        real_time_damages: vec![600, 400],
        total_damage: 1000,
        action_value: 50,
        last_wave_action_value: 20,
        turn_history: vec![
            TurnRecord { avatars_turn_damage: vec![100, 50] },
            TurnRecord { avatars_turn_damage: vec![500, 350] },
        ],
        av_history: vec![AvRecord { action_value: 25, avatars_turn_damage: vec![100, 50] }],
    }
}

#[test]
fn frame_guards_ratios_and_formats_legend() {
    let frame = compose_frame(&sample_snapshot(), "Trial");
    let pie = frame.pie.expect("positive total must produce a pie");
    assert_eq!(pie, vec![PieSpan { start: 0, end: 600 }, PieSpan { start: 600, end: 1000 }]);
    assert_eq!(frame.bars.len(), 2);
    assert_eq!(frame.legend.len(), 2);
    assert_eq!(frame.legend[0].name, "Seele");
    assert_eq!(frame.legend[0].color, get_character_color(0));
    assert_eq!(frame.legend[0].damage_text, "600");
    assert_eq!(frame.legend[0].percent_tenths, Some(600));
    assert_eq!(frame.legend[0].dpav_text, "12");
    assert_eq!(frame.legend[0].dpav_centi, 1200);
    // An unnamed combatant is shown under the trial label and its
    // one-based position.
    assert_eq!(frame.legend[1].name, "Trial 2");
    assert_eq!(frame.legend[1].percent_tenths, Some(400));
    assert_eq!(frame.current_wave_av, 30);
    assert_eq!(frame.dpav_total_centi, 2000);
    assert_eq!(frame.turn_series.len(), 2);
    assert_eq!(frame.turn_series[1].index, 1);
    assert_eq!(frame.turn_series[1].points.len(), 2);
    assert_eq!(frame.av_series.len(), 2);
    assert_eq!(frame.av_series[0].points[0].x, 25);
}

#[test]
fn frame_with_zero_total_skips_pie_and_percentages() {
    let snap = BattleSnapshot {
        avatar_lineup: avatars(&["Seele"]),
        real_time_damages: vec![0],
        total_damage: 0,
        action_value: 0,
        last_wave_action_value: 0,
        turn_history: vec![],
        av_history: vec![],
    };
    let frame = compose_frame(&snap, "Trial");
    assert!(frame.pie.is_none());
    assert_eq!(frame.legend[0].percent_tenths, None);
    // With no elapsed action value, damage per action value falls back
    // to the raw damage.
    assert_eq!(frame.legend[0].dpav_text, "0");
    assert_eq!(frame.legend[0].dpav_centi, 0);
    assert_eq!(frame.dpav_total_centi, 0);
    assert_eq!(frame.turn_series.len(), 0);
    assert_eq!(frame.av_series.len(), 0);
}

#[test]
fn legend_percentage_rounds_to_nearest_tenth() {
    let snap = BattleSnapshot {
        avatar_lineup: avatars(&["A", "B"]),
        real_time_damages: vec![2, 1],
        total_damage: 3,
        action_value: 0,
        last_wave_action_value: 0,
        turn_history: vec![],
        av_history: vec![],
    };
    let frame = compose_frame(&snap, "Trial");
    // Two thirds is 66.67%, shown as 66.7, not truncated to 66.6.
    assert_eq!(frame.legend[0].percent_tenths, Some(667));
    assert_eq!(frame.legend[1].percent_tenths, Some(333));
}

#[test]
fn dpav_carries_hundredths() {
    let snap = BattleSnapshot {
        avatar_lineup: avatars(&["A"]),
        real_time_damages: vec![1000],
        total_damage: 1000,
        action_value: 78,
        last_wave_action_value: 0,
        turn_history: vec![],
        av_history: vec![],
    };
    let frame = compose_frame(&snap, "Trial");
    // 1000 / 78 = 12.82..., carried as 1282 hundredths.
    assert_eq!(frame.dpav_total_centi, 1282);
    assert_eq!(frame.legend[0].dpav_centi, 1282);
    assert_eq!(frame.legend[0].dpav_text, "12");
}

#[test]
fn frame_with_empty_lineup_is_empty_not_an_error() {
    let snap = BattleSnapshot {
        avatar_lineup: vec![],
        real_time_damages: vec![],
        total_damage: 0,
        action_value: 10,
        last_wave_action_value: 0,
        turn_history: vec![],
        av_history: vec![],
    };
    let frame = compose_frame(&snap, "Trial");
    assert!(frame.pie.is_none());
    assert_eq!(frame.bars.len(), 0);
    assert_eq!(frame.legend.len(), 0);
    assert_eq!(frame.current_wave_av, 10);
}
