use sekkei::fx::{fx_abs, fx_add, fx_div, fx_hypot, fx_mul, fx_of_int, fx_sqrt, fx_sub, SCALE};
use sekkei::game::{Gamemode, Mods};
use sekkei::parser::beatmap::objects::{CurveType, HitSound, HitType, SliderObjectType};
use sekkei::parser::beatmap::{BeatmapFile, ParseError};
use sekkei::parser::text::{parse_fx, parse_int, split_str};
use sekkei::util::Vector2;

fn fx(v: i64) -> i64 {
    v * SCALE
}

#[test]
fn fx_arithmetic_exact() {
    assert_eq!(fx_add(fx(2), fx(3)), fx(5));
    assert_eq!(fx_sub(fx(2), fx(3)), fx(-1));
    assert_eq!(fx_mul(fx(6), fx(7)), fx(42));
    assert_eq!(fx_mul(150000, 200000), 300000); // 1.5 * 2 = 3
    assert_eq!(fx_div(fx(100), fx(50)), fx(2));
    assert_eq!(fx_div(fx(1), fx(3)), 33333);
    assert_eq!(fx_div(fx(7), 0), 0);
    assert_eq!(fx_abs(-250000), 250000);
    assert_eq!(fx_of_int(-12), fx(-12));
}

#[test]
fn fx_saturates_at_the_bounds() {
    assert_eq!(fx_add(i64::MAX, 1), i64::MAX);
    assert_eq!(fx_sub(i64::MIN, 1), i64::MIN);
    assert_eq!(fx_mul(i64::MAX, i64::MAX), i64::MAX);
}

#[test]
fn fx_square_roots() {
    assert_eq!(fx_hypot(fx(3), fx(4)), fx(5));
    assert_eq!(fx_hypot(0, 0), 0);
    assert_eq!(fx_sqrt(fx(9)), fx(3));
    assert_eq!(fx_sqrt(-5), 0);
}

#[test]
fn vector_ops() {
    let a = Vector2::new(fx(3), fx(4));
    let b = Vector2::new(fx(1), fx(1));
    assert_eq!(a.len(), fx(5));
    assert_eq!(a.sub(b), Vector2::new(fx(2), fx(3)));
    assert_eq!(a.add(b), Vector2::new(fx(4), fx(5)));
    assert_eq!(a.scale(fx(2)), Vector2::new(fx(6), fx(8)));
    assert_eq!(a.div(fx(2)), Vector2::new(150000, fx(2)));
    assert_eq!(a.dot(b), fx(7));
    assert_eq!(a.mul(b), a);
    assert_eq!(a.distance(Vector2::new(0, fx(4))), fx(3));
}

#[test]
fn parse_int_grammar() {
    assert_eq!(parse_int("42"), Some(42));
    assert_eq!(parse_int("-7"), Some(-7));
    assert_eq!(parse_int("+9"), Some(9));
    assert_eq!(parse_int(""), None);
    assert_eq!(parse_int("-"), None);
    assert_eq!(parse_int("12a"), None);
    assert_eq!(parse_int(" 1"), None);
}

#[test]
fn parse_fx_grammar() {
    assert_eq!(parse_fx("1.5"), Some(150000));
    assert_eq!(parse_fx("-0.001"), Some(-100));
    assert_eq!(parse_fx("256"), Some(fx(256)));
    assert_eq!(parse_fx(".5"), Some(50000));
    assert_eq!(parse_fx("2."), Some(fx(2)));
    assert_eq!(parse_fx("."), None);
    assert_eq!(parse_fx("1.2.3"), None);
    assert_eq!(parse_fx("abc"), None);
    // digits past the fifth place contribute nothing
    assert_eq!(parse_fx("0.1234567"), Some(12345));
}

#[test]
fn split_keeps_empty_pieces() {
    let parts = split_str("a,,b", ',');
    assert_eq!(parts.len(), 3);
    assert_eq!(parts[0], "a");
    assert_eq!(parts[1], "");
    assert_eq!(parts[2], "b");
    let single = split_str("", ',');
    assert_eq!(single.len(), 1);
    assert_eq!(single[0], "");
}

#[test]
fn gamemode_names_and_codes() {
    assert!(matches!(Gamemode::from_str("Standard"), Ok(Gamemode::Standard)));
    assert!(matches!(Gamemode::from_str("3"), Ok(Gamemode::Mania)));
    assert!(Gamemode::from_str("Osu").is_err());
    assert!(matches!(Gamemode::try_from(2), Ok(Gamemode::Catch)));
    assert!(Gamemode::try_from(4).is_err());
}

#[test]
fn mods_from_acronyms() {
    assert_eq!(Mods::from_str(String::from("HD")), Mods::Hidden);
    assert_eq!(Mods::from_str(String::from("NM")), Mods::NoMod);
    assert_eq!(Mods::from_str(String::from("??")), Mods::NoMod);
    assert_eq!(Mods::DoubleTime.bits(), 64);
}

#[test]
fn hit_enums() {
    assert!(matches!(HitSound::try_from(3), Ok(HitSound::Clap)));
    assert!(HitSound::try_from(5).is_err());
    assert!(matches!(HitSound::from_str("Whistle"), Ok(HitSound::Whistle)));
    assert!(matches!(HitType::from_i32(2), Ok(HitType::Slider)));
    assert!(HitType::from_i32(3).is_err());
    assert!(matches!(HitType::from_str("Hold"), Ok(HitType::Hold)));
    assert_eq!(HitType::Spinner.flag(), 8);
    assert!(matches!(CurveType::from_str("P"), Ok(CurveType::PerfectCurve)));
    assert!(CurveType::from_str("X").is_err());
}

#[test]
fn version_line_and_metadata() {
    let text = "osu file format v14\n\
                [General]\n\
                AudioFilename: song.mp3\n\
                AudioLeadIn: 12\n\
                PreviewTime: 3456\n\
                Mode: 0\n\
                StackLeniency: 0.7\n\
                [Metadata]\n\
                Title:Remote Control\n\
                Artist: Somebody\n\
                Version:Insane\n\
                Tags: one  two three\n\
                [Difficulty]\n\
                HPDrainRate:5\n\
                CircleSize:4\n\
                OverallDifficulty:8\n\
                ApproachRate:9\n\
                SliderMultiplier:1.4\n\
                SliderTickRate:1\n";
    let (bm, errors) = BeatmapFile::from_str(text);
    assert!(errors.is_empty());
    assert_eq!(bm.format_version, 14);
    assert_eq!(bm.audio.filename, "song.mp3");
    assert_eq!(bm.audio.lead_in, 12);
    assert_eq!(bm.metadata.preview_time, 3456);
    assert_eq!(bm.stack_leniency, 70000);
    assert_eq!(bm.title, "Remote Control");
    assert_eq!(bm.artist, "Somebody");
    assert_eq!(bm.difficulty_name, "Insane");
    assert_eq!(bm.metadata.tags, vec!["one", "two", "three"]);
    let (tabbed, _) = BeatmapFile::from_str("osu file format v14\n[Metadata]\nTags: a\tb  c\n");
    assert_eq!(tabbed.metadata.tags, vec!["a", "b", "c"]);
    assert_eq!(bm.difficulty.hp_drain, fx(5));
    assert_eq!(bm.difficulty.circle_size, fx(4));
    assert_eq!(bm.difficulty.overall_difficulty, fx(8));
    assert_eq!(bm.difficulty.approach_rate, fx(9));
    assert_eq!(bm.difficulty.slider_multiplier, 140000);
    assert_eq!(bm.difficulty.slider_tickrate, fx(1));
}

#[test]
fn malformed_version_suffix_defaults_to_zero() {
    let (bm, errors) = BeatmapFile::from_str("osu file format vX\n");
    assert_eq!(bm.format_version, 0);
    assert_eq!(errors.len(), 1);
    assert_eq!(errors[0].error, ParseError::MalformedHeader);
}

#[test]
fn plain_circle_line() {
    // a circle at (64,192), time 256, type 1, before any stacking effects
    let text = "osu file format v14\n\
                [HitObjects]\n\
                64,192,256,1,0,0:0:0:0:\n";
    let (bm, errors) = BeatmapFile::from_str(text);
    assert!(errors.is_empty());
    assert_eq!(bm.hit_objects.len(), 1);
    let o = &bm.hit_objects[0];
    assert_eq!(o.position, Vector2::new(fx(64), fx(192)));
    assert_eq!(o.x, fx(64));
    assert_eq!(o.y, fx(192));
    assert_eq!(o.start_time, fx(256));
    assert_eq!(o.hit_type, 1);
    assert!(o.slider_data.is_none());
    assert!(o.slider_objects.is_none());
    assert_eq!(o.stack_height, 0);
}

#[test]
fn circle_builder_leaves_stack_height_zero() {
    let values = split_str("64,192,256,1,0,0:0:0:0:", ',');
    let o = BeatmapFile::parse_hit_object_line(&values).unwrap();
    assert_eq!(o.stack_height, 0);
    assert_eq!(o.position, Vector2::new(fx(64), fx(192)));
    assert_eq!(o.end_position, Vector2::new(0, 0));
    let sample = &o.extra_data.as_ref().unwrap().hit_sample;
    assert_eq!(sample.normal_set, 0);
    assert_eq!(sample.file_name, "");
}

#[test]
fn short_object_line_is_reported_and_skipped() {
    let text = "osu file format v14\n\
                [HitObjects]\n\
                64,192\n\
                100,100,500,1,0,0:0:0:0:\n";
    let (bm, errors) = BeatmapFile::from_str(text);
    assert_eq!(bm.hit_objects.len(), 1);
    assert_eq!(bm.hit_objects[0].start_time, fx(500));
    assert_eq!(errors.len(), 1);
    assert_eq!(errors[0].error, ParseError::MalformedField);
    assert_eq!(errors[0].line, 2);
}

#[test]
fn missing_slider_descriptor_is_reported() {
    let text = "osu file format v14\n\
                [HitObjects]\n\
                0,0,1000,2,0\n";
    let (bm, errors) = BeatmapFile::from_str(text);
    assert_eq!(bm.hit_objects.len(), 0);
    assert_eq!(errors.len(), 1);
    assert_eq!(errors[0].error, ParseError::MalformedSliderDescriptor);
}

#[test]
fn linear_path_is_used_as_is() {
    let pts = vec![
        Vector2::new(0, 0),
        Vector2::new(fx(100), 0),
        Vector2::new(fx(200), 0),
    ];
    let body = BeatmapFile::build_flattened_path(CurveType::Linear, &pts);
    assert_eq!(
        body,
        vec![
            Vector2::new(0, 0),
            Vector2::new(fx(100), 0),
            Vector2::new(fx(200), 0),
        ]
    );
}

#[test]
fn linear_slider_end_to_end() {
    let text = "osu file format v14\n\
                [Difficulty]\n\
                SliderMultiplier:1\n\
                SliderTickRate:1\n\
                [TimingPoints]\n\
                0,500,4,0,0,100,1,0\n\
                [HitObjects]\n\
                0,0,1000,2,0,L|100:0|200:0,1,200\n";
    let (bm, errors) = BeatmapFile::from_str(text);
    assert!(errors.is_empty());
    assert_eq!(bm.hit_objects.len(), 1);
    let o = &bm.hit_objects[0];
    let data = o.slider_data.as_ref().unwrap();
    assert_eq!(data.curve_type, CurveType::Linear);
    assert_eq!(
        data.slider_body.body,
        vec![
            Vector2::new(0, 0),
            Vector2::new(fx(100), 0),
            Vector2::new(fx(200), 0),
        ]
    );
    assert_eq!(data.slider_body.length, vec![0, fx(100), fx(200)]);
    // the end position sits at the declared length along the path
    assert_eq!(o.end_position, Vector2::new(fx(200), 0));
    let objs = o.slider_objects.as_ref().unwrap();
    // head, ticks every 100 px except within the keep-out zone, end
    assert!(objs.len() >= 2);
    assert_eq!(objs[0].slider_object_type, SliderObjectType::SliderHead);
    assert_eq!(
        objs[objs.len() - 1].slider_object_type,
        SliderObjectType::SliderEnd
    );
    for w in objs.windows(2) {
        assert!(w[0].start_time <= w[1].start_time);
    }
}

#[test]
fn collinear_perfect_curve_reclassifies_to_linear() {
    let anchor = Vector2::new(0, 0);
    let (curve, _, rel) = BeatmapFile::parse_slider_descriptor("P|100:0|200:0", anchor);
    assert_eq!(rel.len(), 3);
    assert_eq!(curve, CurveType::Linear);
    let (curve2, _, _) = BeatmapFile::parse_slider_descriptor("P|100:100|200:0", anchor);
    assert_eq!(curve2, CurveType::PerfectCurve);
}

#[test]
fn degenerate_arc_is_empty_and_falls_back() {
    // two coincident points make the circle fit degenerate
    let pts = vec![
        Vector2::new(0, 0),
        Vector2::new(0, 0),
        Vector2::new(fx(2), 0),
    ];
    let arc = BeatmapFile::approximate_perfect_curve(&pts);
    assert!(arc.is_empty());
    let good = vec![
        Vector2::new(0, 0),
        Vector2::new(fx(1), fx(1)),
        Vector2::new(fx(2), 0),
    ];
    let arc2 = BeatmapFile::approximate_perfect_curve(&good);
    assert!(arc2.len() >= 2);
    // the arc begins and ends at the outer control points
    assert_eq!(arc2[0], Vector2::new(0, 0));
    assert_eq!(arc2[arc2.len() - 1], Vector2::new(fx(2), 0));
}

#[test]
fn unrelated_neighbor_does_not_erase_a_stack() {
    // A and C share a position; B sits elsewhere between them in time.
    // B's own backward scan must not reset A's height.
    let text = "osu file format v14\n\
                [General]\n\
                StackLeniency: 0.7\n\
                [Difficulty]\n\
                ApproachRate:9\n\
                [HitObjects]\n\
                100,100,1000,1,0,0:0:0:0:\n\
                200,200,1010,1,0,0:0:0:0:\n\
                100,100,1020,1,0,0:0:0:0:\n";
    let (bm, _) = BeatmapFile::from_str(text);
    assert_eq!(bm.hit_objects[0].stack_height, 1);
    assert_eq!(bm.hit_objects[1].stack_height, 0);
    assert_eq!(bm.hit_objects[2].stack_height, 0);
}

#[test]
fn bezier_path_keeps_endpoints() {
    let pts = vec![
        Vector2::new(0, 0),
        Vector2::new(fx(50), fx(100)),
        Vector2::new(fx(100), 0),
    ];
    let path = BeatmapFile::approximate_bezier(&pts);
    assert!(path.len() >= 2);
    assert_eq!(path[0], Vector2::new(0, 0));
    assert_eq!(path[path.len() - 1], Vector2::new(fx(100), 0));
}

#[test]
fn catmull_sample_count() {
    let pts = vec![
        Vector2::new(0, 0),
        Vector2::new(fx(50), fx(50)),
        Vector2::new(fx(100), 0),
    ];
    let path = BeatmapFile::approximate_catmull(&pts);
    assert_eq!(path.len(), 2 * 100);
}

#[test]
fn resample_truncates_to_declared_length() {
    let path = vec![Vector2::new(0, 0), Vector2::new(fx(100), 0)];
    let sb = BeatmapFile::resample_body(path, fx(50));
    assert_eq!(*sb.length.last().unwrap(), fx(50));
    assert_eq!(sb.body.len(), sb.length.len());
    assert_eq!(sb.body[sb.body.len() - 1], Vector2::new(fx(50), 0));
}

#[test]
fn resample_extends_a_short_path() {
    let path = vec![Vector2::new(0, 0), Vector2::new(fx(100), 0)];
    let sb = BeatmapFile::resample_body(path, fx(200));
    assert_eq!(*sb.length.last().unwrap(), fx(200));
    assert_eq!(sb.body[sb.body.len() - 1], Vector2::new(fx(200), 0));
}

#[test]
fn resample_leaves_zero_direction_path_short() {
    let path = vec![Vector2::new(fx(7), fx(7)), Vector2::new(fx(7), fx(7))];
    let sb = BeatmapFile::resample_body(path, fx(10));
    // the final raw segment has zero length: the table stays short
    assert_eq!(*sb.length.last().unwrap(), 0);
}

#[test]
fn timing_point_multiplier_law() {
    let text = "osu file format v14\n\
                [TimingPoints]\n\
                0,500,4,0,0,100,1,0\n\
                1000,-50,4,0,0,100,0,0\n";
    let (bm, _) = BeatmapFile::from_str(text);
    assert_eq!(bm.uninherited_points.len(), 1);
    assert_eq!(bm.inherited_points.len(), 1);
    assert_eq!(bm.timing_points.len(), 2);
    assert_eq!(bm.timing_points[0].speed_multiplier, fx(1));
    // 100 / |-50| = 2
    assert_eq!(bm.timing_points[1].speed_multiplier, fx(2));
    assert_eq!(bm.inherited_points[0].speed_multiplier, fx(2));
    assert_eq!(bm.inherited_points[0].inherited_from.beat_length, fx(500));
}

#[test]
fn timing_lookup_is_total_and_idempotent() {
    let text = "osu file format v14\n\
                [TimingPoints]\n\
                1000,500,4,0,0,100,1,0\n\
                2000,-50,4,0,0,100,0,0\n";
    let (bm, _) = BeatmapFile::from_str(text);
    // before every point: the first point stands in
    let before = bm.get_timing_point(0);
    assert_eq!(before.time, fx(1000));
    // between the points: the earlier one governs
    let mid = bm.get_timing_point(fx(1500));
    assert_eq!(mid.time, fx(1000));
    // after every point: the last one governs
    let after = bm.get_timing_point(fx(9999));
    assert_eq!(after.time, fx(2000));
    // resolving at the governing point's own time is stable
    let again = bm.get_timing_point(after.time);
    assert_eq!(again.time, after.time);
    let u = bm.get_uninherited_timing_point(fx(5000));
    assert_eq!(u.time, fx(1000));
    let i = bm.get_inherited_timing_point(0);
    assert_eq!(i.time, fx(2000));
}

#[test]
fn legacy_offset_applies_before_version_five() {
    let text = "osu file format v4\n\
                [TimingPoints]\n\
                0,500,4,0,0,100,1,0\n";
    let (bm, _) = BeatmapFile::from_str(text);
    assert_eq!(bm.timing_points[0].time, fx(24));
}

#[test]
fn slider_with_no_ticks_has_span_count_plus_one_objects() {
    // tick rate zero gives a zero tick spacing, so no ticks at all;
    // repeat field 2 means spanCount 2: head, one repeat, end
    let text = "osu file format v14\n\
                [Difficulty]\n\
                SliderMultiplier:1\n\
                SliderTickRate:0\n\
                [TimingPoints]\n\
                0,500,4,0,0,100,1,0\n\
                [HitObjects]\n\
                0,0,1000,2,0,L|100:0,2,100\n";
    let (bm, errors) = BeatmapFile::from_str(text);
    assert!(errors.is_empty());
    let o = &bm.hit_objects[0];
    let objs = o.slider_objects.as_ref().unwrap();
    assert_eq!(objs.len(), 3);
    assert_eq!(objs[0].slider_object_type, SliderObjectType::SliderHead);
    assert_eq!(objs[1].slider_object_type, SliderObjectType::SliderRepeat);
    assert_eq!(objs[2].slider_object_type, SliderObjectType::SliderEnd);
    for w in objs.windows(2) {
        assert!(w[0].start_time <= w[1].start_time);
    }
}

#[test]
fn stacked_circles_get_integer_heights() {
    let text = "osu file format v14\n\
                [General]\n\
                StackLeniency: 0.7\n\
                [Difficulty]\n\
                ApproachRate:9\n\
                [HitObjects]\n\
                100,100,1000,1,0,0:0:0:0:\n\
                100,100,1010,1,0,0:0:0:0:\n";
    let (bm, _) = BeatmapFile::from_str(text);
    assert_eq!(bm.hit_objects.len(), 2);
    assert_eq!(bm.hit_objects[0].stack_height, 1);
    assert_eq!(bm.hit_objects[1].stack_height, 0);
}

#[test]
fn distant_circles_do_not_stack() {
    let text = "osu file format v14\n\
                [General]\n\
                StackLeniency: 0.7\n\
                [Difficulty]\n\
                ApproachRate:9\n\
                [HitObjects]\n\
                100,100,1000,1,0,0:0:0:0:\n\
                300,300,90000,1,0,0:0:0:0:\n";
    let (bm, _) = BeatmapFile::from_str(text);
    assert_eq!(bm.hit_objects[0].stack_height, 0);
    assert_eq!(bm.hit_objects[1].stack_height, 0);
}

#[test]
fn hold_object_reads_end_time_and_sample() {
    let text = "osu file format v14\n\
                [HitObjects]\n\
                256,192,100,128,0,400:1:2:3:4:clap.wav\n";
    let (bm, errors) = BeatmapFile::from_str(text);
    assert!(errors.is_empty());
    let o = &bm.hit_objects[0];
    assert_eq!(o.end_time, fx(400));
    let sample = &o.extra_data.as_ref().unwrap().hit_sample;
    assert_eq!(sample.normal_set, 1);
    assert_eq!(sample.additional_set, 2);
    assert_eq!(sample.index, 3);
    assert_eq!(sample.volume, 4);
    assert_eq!(sample.file_name, "clap.wav");
}

#[test]
fn spinner_reads_end_time() {
    let text = "osu file format v14\n\
                [HitObjects]\n\
                256,192,100,8,0,1100,0:0:0:0:\n";
    let (bm, errors) = BeatmapFile::from_str(text);
    assert!(errors.is_empty());
    let o = &bm.hit_objects[0];
    assert_eq!(o.end_time, fx(1100));
    assert!(o.extra_data.is_some());
}

#[test]
fn hitsample_parser_defaults() {
    let s = BeatmapFile::parse_hitsample("1:2:3:4:hit.wav");
    assert_eq!(
        (s.normal_set, s.additional_set, s.index, s.volume),
        (1, 2, 3, 4)
    );
    assert_eq!(s.file_name, "hit.wav");
    let t = BeatmapFile::parse_hitsample("5:abc");
    assert_eq!(t.normal_set, 5);
    assert_eq!(t.additional_set, 0);
    assert_eq!(t.file_name, "");
}

#[test]
fn comments_and_unknown_sections_are_ignored() {
    let text = "osu file format v14\n\
                //64,192,256,1,0\n\
                [Colours]\n\
                Combo1: 255,0,0\n\
                [HitObjects]\n\
                10,20,30,1,0\n";
    let (bm, errors) = BeatmapFile::from_str(text);
    assert!(errors.is_empty());
    assert_eq!(bm.hit_objects.len(), 1);
    assert_eq!(bm.hit_objects[0].position, Vector2::new(fx(10), fx(20)));
}

#[test]
fn perfect_circle_slider_end_to_end() {
    let text = "osu file format v14\n\
                [Difficulty]\n\
                SliderMultiplier:1\n\
                SliderTickRate:1\n\
                [TimingPoints]\n\
                0,500,4,0,0,100,1,0\n\
                [HitObjects]\n\
                0,0,1000,2,0,P|50:50|100:0,1,100\n";
    let (bm, errors) = BeatmapFile::from_str(text);
    assert!(errors.is_empty());
    let o = &bm.hit_objects[0];
    let data = o.slider_data.as_ref().unwrap();
    assert_eq!(data.curve_type, CurveType::PerfectCurve);
    assert!(data.slider_body.body.len() >= 2);
    assert_eq!(*data.slider_body.length.last().unwrap(), fx(100));
    assert!(o.end_time > o.start_time);
    let objs = o.slider_objects.as_ref().unwrap();
    for w in objs.windows(2) {
        assert!(w[0].start_time <= w[1].start_time);
    }
}

#[test]
fn bezier_slider_end_to_end() {
    let text = "osu file format v14\n\
                [Difficulty]\n\
                SliderMultiplier:1\n\
                SliderTickRate:1\n\
                [TimingPoints]\n\
                0,500,4,0,0,100,1,0\n\
                [HitObjects]\n\
                0,0,1000,2,0,B|50:100|100:0,1,100\n";
    let (bm, errors) = BeatmapFile::from_str(text);
    assert!(errors.is_empty());
    let data = bm.hit_objects[0].slider_data.as_ref().unwrap();
    assert_eq!(data.curve_type, CurveType::Bezier);
    assert_eq!(data.slider_body.body[0], Vector2::new(0, 0));
    assert_eq!(*data.slider_body.length.last().unwrap(), fx(100));
}

#[test]
fn catmull_slider_end_to_end() {
    let text = "osu file format v14\n\
                [Difficulty]\n\
                SliderMultiplier:1\n\
                SliderTickRate:1\n\
                [TimingPoints]\n\
                0,500,4,0,0,100,1,0\n\
                [HitObjects]\n\
                0,0,1000,2,0,C|50:50|100:0,1,100\n";
    let (bm, errors) = BeatmapFile::from_str(text);
    assert!(errors.is_empty());
    let data = bm.hit_objects[0].slider_data.as_ref().unwrap();
    assert_eq!(data.curve_type, CurveType::Catmull);
    assert_eq!(*data.slider_body.length.last().unwrap(), fx(100));
}

#[test]
fn inherited_point_scales_slider_velocity() {
    // the -50 inherited point doubles the velocity at the slider's time
    let text = "osu file format v14\n\
                [Difficulty]\n\
                SliderMultiplier:1\n\
                SliderTickRate:1\n\
                [TimingPoints]\n\
                0,500,4,0,0,100,1,0\n\
                500,-50,4,0,0,100,0,0\n\
                [HitObjects]\n\
                0,0,1000,2,0,L|200:0,1,200\n";
    let (bm, errors) = BeatmapFile::from_str(text);
    assert!(errors.is_empty());
    let o = &bm.hit_objects[0];
    // the governing combined-list point is the inherited one: its multiplier
    // doubles the scoring distance and its negative beat length (-50) is the
    // velocity divisor, so velocity = 200 / -50 = -4 px/ms and the end time
    // is 1000 + 200 / -4 = 950 ms
    assert_eq!(o.end_time, fx(950));
}

#[test]
fn unrecognized_curve_code_means_catmull() {
    let (curve, _, _) =
        BeatmapFile::parse_slider_descriptor("Z|50:50|100:0", Vector2::new(0, 0));
    assert_eq!(curve, CurveType::Catmull);
}

#[test]
fn slider_points_are_anchor_relative() {
    let anchor = Vector2::new(fx(10), fx(20));
    let (_, base, rel) = BeatmapFile::parse_slider_descriptor("L|110:20", anchor);
    assert_eq!(base, vec![Vector2::new(fx(110), fx(20))]);
    assert_eq!(rel, vec![Vector2::new(0, 0), Vector2::new(fx(100), 0)]);
}
