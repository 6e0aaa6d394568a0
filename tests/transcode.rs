use ron_json_transcode::engine::{transcode, Engine, Event, Options, PayloadKind, TranscodeError};
use ron_json_transcode::format::{format_of_upper, parse_format, select_formats, Format};
use ron_json_transcode::options::CmdLineOptions;
use std::collections::VecDeque;

fn opts(target: Format, depth_limit: Option<usize>) -> Options {
    Options { target, depth_limit, struct_names: false }
}

fn run(target: Format, depth_limit: Option<usize>, evs: Vec<Event>) -> Result<Vec<Event>, TranscodeError> {
    transcode(opts(target, depth_limit), VecDeque::from(evs))
}

fn s(x: &str) -> String {
    x.to_string()
}

fn sample_object() -> Vec<Event> {
    vec![
        Event::MapStart,
        Event::Str(s("a")),
        Event::Int(1),
        Event::Str(s("b")),
        Event::SeqStart,
        Event::Bool(true),
        Event::Unit,
        Event::Str(s("x")),
        Event::SeqEnd,
        Event::MapEnd,
    ]
}

fn nested_seqs(depth: usize) -> Vec<Event> {
    let mut evs = Vec::new();
    for _ in 0..depth {
        evs.push(Event::SeqStart);
    }
    evs.push(Event::Int(7));
    for _ in 0..depth {
        evs.push(Event::SeqEnd);
    }
    evs
}

#[test]
fn json_object_to_ron_and_back() {
    let ron = run(Format::Ron, None, sample_object()).unwrap();
    assert_eq!(ron, sample_object());
    let json = run(Format::Json, None, ron).unwrap();
    assert_eq!(json, sample_object());
}

#[test]
fn round_trip_ron_json_ron_keeps_shared_values() {
    let evs = vec![
        Event::SeqStart,
        Event::Float(s("2.5")),
        Event::Int(-3),
        Event::Str(s("")),
        Event::SeqEnd,
    ];
    let json = run(Format::Json, Some(4), evs.clone()).unwrap();
    let ron = run(Format::Ron, Some(4), json).unwrap();
    assert_eq!(ron, evs);
}

#[test]
fn depth_equal_to_limit_succeeds() {
    assert_eq!(run(Format::Json, Some(3), nested_seqs(3)), Ok(nested_seqs(3)));
}

#[test]
fn depth_over_limit_fails() {
    assert_eq!(run(Format::Json, Some(3), nested_seqs(4)), Err(TranscodeError::DepthLimitExceeded));
    assert_eq!(run(Format::Ron, Some(0), nested_seqs(1)), Err(TranscodeError::DepthLimitExceeded));
}

#[test]
fn scalar_at_depth_zero_limit_succeeds() {
    assert_eq!(run(Format::Ron, Some(0), vec![Event::Int(5)]), Ok(vec![Event::Int(5)]));
}

#[test]
fn no_limit_allows_deep_nesting() {
    assert_eq!(run(Format::Ron, None, nested_seqs(200)), Ok(nested_seqs(200)));
}

#[test]
fn scalars_are_reproduced() {
    for ev in [
        Event::Bool(false),
        Event::Int(i128::MIN),
        Event::Int(u64::MAX as i128),
        Event::Float(s("1e-7")),
        Event::Str(s("h\u{e9}llo \"q\"")),
    ] {
        assert_eq!(run(Format::Json, None, vec![ev.clone()]), Ok(vec![ev.clone()]));
        assert_eq!(run(Format::Ron, None, vec![ev.clone()]), Ok(vec![ev]));
    }
}

#[test]
fn unterminated_map_is_a_syntax_error() {
    let evs = vec![Event::MapStart, Event::Str(s("a")), Event::Int(1)];
    assert_eq!(run(Format::Ron, None, evs), Err(TranscodeError::SourceSyntax));
}

#[test]
fn every_truncation_is_a_syntax_error() {
    let full = sample_object();
    for k in 0..full.len() {
        let cut: Vec<Event> = full[..k].to_vec();
        assert_eq!(run(Format::Json, None, cut), Err(TranscodeError::SourceSyntax));
    }
}

#[test]
fn empty_input_is_a_syntax_error() {
    assert_eq!(run(Format::Json, None, vec![]), Err(TranscodeError::SourceSyntax));
}

#[test]
fn second_root_value_is_a_syntax_error() {
    assert_eq!(run(Format::Json, None, vec![Event::Int(1), Event::Int(2)]), Err(TranscodeError::SourceSyntax));
}

#[test]
fn mismatched_close_is_a_syntax_error() {
    assert_eq!(run(Format::Ron, None, vec![Event::SeqStart, Event::MapEnd]), Err(TranscodeError::SourceSyntax));
    assert_eq!(run(Format::Ron, None, vec![Event::SeqEnd]), Err(TranscodeError::SourceSyntax));
}

#[test]
fn map_closed_after_key_is_a_syntax_error() {
    let evs = vec![Event::MapStart, Event::Str(s("a")), Event::MapEnd];
    assert_eq!(run(Format::Json, None, evs), Err(TranscodeError::SourceSyntax));
}

#[test]
fn value_where_a_field_name_belongs_is_a_syntax_error() {
    let evs = vec![Event::StructStart(None), Event::Int(1), Event::StructEnd];
    assert_eq!(run(Format::Ron, None, evs), Err(TranscodeError::SourceSyntax));
}

#[test]
fn struct_becomes_map_for_json() {
    let evs = vec![
        Event::StructStart(Some(s("Point"))),
        Event::Field(s("x")),
        Event::Int(1),
        Event::Field(s("y")),
        Event::Int(2),
        Event::StructEnd,
    ];
    let expected = vec![
        Event::MapStart,
        Event::Str(s("x")),
        Event::Int(1),
        Event::Str(s("y")),
        Event::Int(2),
        Event::MapEnd,
    ];
    assert_eq!(run(Format::Json, None, evs), Ok(expected));
}

#[test]
fn struct_names_dropped_or_kept_for_ron() {
    let evs = vec![
        Event::StructStart(Some(s("Point"))),
        Event::Field(s("x")),
        Event::Int(1),
        Event::StructEnd,
    ];
    let dropped = run(Format::Ron, None, evs.clone()).unwrap();
    assert_eq!(dropped[0], Event::StructStart(None));
    assert_eq!(dropped[1..], evs[1..]);
    let keep = Options { target: Format::Ron, depth_limit: None, struct_names: true };
    assert_eq!(transcode(keep, VecDeque::from(evs.clone())), Ok(evs));
}

#[test]
fn bytes_are_unsupported_in_json() {
    assert_eq!(run(Format::Json, None, vec![Event::Bytes(vec![1, 2])]), Err(TranscodeError::UnsupportedValue));
    assert_eq!(run(Format::Ron, None, vec![Event::Bytes(vec![1, 2])]), Ok(vec![Event::Bytes(vec![1, 2])]));
}

#[test]
fn options_degrade_for_json() {
    let evs = vec![
        Event::SeqStart,
        Event::Present,
        Event::Int(4),
        Event::Absent,
        Event::SeqEnd,
    ];
    assert_eq!(
        run(Format::Json, None, evs.clone()),
        Ok(vec![Event::SeqStart, Event::Int(4), Event::Unit, Event::SeqEnd])
    );
    assert_eq!(run(Format::Ron, None, evs.clone()), Ok(evs));
}

#[test]
fn variants_become_maps_and_strings_for_json() {
    let evs = vec![
        Event::SeqStart,
        Event::Variant(s("Move"), PayloadKind::Tuple),
        Event::SeqStart,
        Event::Int(1),
        Event::SeqEnd,
        Event::UnitVariant(s("Stop")),
        Event::SeqEnd,
    ];
    let expected = vec![
        Event::SeqStart,
        Event::MapStart,
        Event::Str(s("Move")),
        Event::SeqStart,
        Event::Int(1),
        Event::SeqEnd,
        Event::MapEnd,
        Event::Str(s("Stop")),
        Event::SeqEnd,
    ];
    assert_eq!(run(Format::Json, None, evs.clone()), Ok(expected));
    assert_eq!(run(Format::Ron, None, evs.clone()), Ok(evs));
}

#[test]
fn nested_payloads_close_together() {
    let evs = vec![Event::Variant(s("A"), PayloadKind::Newtype), Event::Present, Event::Variant(s("B"), PayloadKind::Newtype), Event::Int(0)];
    let expected = vec![
        Event::MapStart,
        Event::Str(s("A")),
        Event::MapStart,
        Event::Str(s("B")),
        Event::Int(0),
        Event::MapEnd,
        Event::MapEnd,
    ];
    assert_eq!(run(Format::Json, None, evs), Ok(expected));
}

#[test]
fn engine_feeds_one_event_at_a_time() {
    let mut engine = Engine::new(opts(Format::Json, None));
    let mut out = Vec::new();
    assert_eq!(engine.feed(Event::SeqStart, &mut out), Ok(()));
    assert!(!engine.is_done());
    assert_eq!(engine.finish(), Err(TranscodeError::SourceSyntax));
    assert_eq!(engine.feed(Event::Absent, &mut out), Ok(()));
    assert_eq!(engine.feed(Event::SeqEnd, &mut out), Ok(()));
    assert!(engine.is_done());
    assert_eq!(engine.finish(), Ok(()));
    assert_eq!(out, vec![Event::SeqStart, Event::Unit, Event::SeqEnd]);
    assert_eq!(engine.feed(Event::Unit, &mut out), Err(TranscodeError::SourceSyntax));
}

#[test]
fn format_names_ignore_case() {
    assert_eq!(parse_format("json"), Some(Format::Json));
    assert_eq!(parse_format("Ron"), Some(Format::Ron));
    assert_eq!(parse_format("RON"), Some(Format::Ron));
    assert_eq!(parse_format("xml"), None);
    assert_eq!(format_of_upper("JSON"), Some(Format::Json));
    assert_eq!(format_of_upper("json"), None);
}

#[test]
fn supported_pairs_are_selected() {
    assert_eq!(select_formats("ron", "json"), Ok((Format::Ron, Format::Json)));
    assert_eq!(select_formats("JSON", "JSON"), Ok((Format::Json, Format::Json)));
    assert_eq!(select_formats("Json", "rOn"), Ok((Format::Json, Format::Ron)));
}

#[test]
fn unsupported_format_is_rejected() {
    assert_eq!(select_formats("XML", "JSON"), Err(TranscodeError::UnsupportedFormat));
    assert_eq!(select_formats("RON", "yaml"), Err(TranscodeError::UnsupportedFormat));
    assert_eq!(select_formats("", "RON"), Err(TranscodeError::UnsupportedFormat));
}

#[test]
fn command_line_options_give_engine_options() {
    let cmd = CmdLineOptions {
        depth_limit: Some(5),
        input_format: s("RON"),
        output_format: s("JSON"),
    };
    assert_eq!(cmd.engine_options(Format::Json), opts(Format::Json, Some(5)));
    let config = cmd.to_ron_pretty_config().into_pretty_config();
    assert_eq!(config.depth_limit, 5);
    assert!(config.decimal_floats);
    let plain = CmdLineOptions { depth_limit: None, ..cmd };
    let config = plain.to_ron_pretty_config().into_pretty_config();
    assert_eq!(config.depth_limit, ron::ser::PrettyConfig::new().depth_limit);
    assert!(config.decimal_floats);
}

#[test]
fn variant_payload_counts_toward_depth() {
    let newtype = vec![Event::Variant(s("A"), PayloadKind::Newtype), Event::Int(1)];
    assert_eq!(run(Format::Ron, Some(0), newtype.clone()), Err(TranscodeError::DepthLimitExceeded));
    assert_eq!(run(Format::Ron, Some(1), newtype.clone()), Ok(newtype));
    let tuple = vec![
        Event::Variant(s("A"), PayloadKind::Tuple),
        Event::SeqStart,
        Event::Int(1),
        Event::Int(2),
        Event::SeqEnd,
    ];
    assert_eq!(run(Format::Json, Some(1), tuple.clone()), Err(TranscodeError::DepthLimitExceeded));
    let expected = vec![
        Event::MapStart,
        Event::Str(s("A")),
        Event::SeqStart,
        Event::Int(1),
        Event::Int(2),
        Event::SeqEnd,
        Event::MapEnd,
    ];
    assert_eq!(run(Format::Json, Some(2), tuple.clone()), Ok(expected));
    assert_eq!(run(Format::Ron, Some(2), tuple.clone()), Ok(tuple));
}

#[test]
fn depth_is_released_after_a_variant_payload() {
    let evs = vec![
        Event::SeqStart,
        Event::Variant(s("A"), PayloadKind::Newtype),
        Event::Int(1),
        Event::Variant(s("B"), PayloadKind::Newtype),
        Event::Int(2),
        Event::SeqEnd,
    ];
    assert_eq!(run(Format::Ron, Some(2), evs.clone()), Ok(evs));
}

#[test]
fn composite_json_keys_are_unsupported() {
    let seq_key = vec![Event::MapStart, Event::SeqStart, Event::SeqEnd, Event::Int(1), Event::MapEnd];
    assert_eq!(run(Format::Json, None, seq_key.clone()), Err(TranscodeError::UnsupportedValue));
    assert_eq!(run(Format::Ron, None, seq_key.clone()), Ok(seq_key));
    let unit_key = vec![Event::MapStart, Event::Unit, Event::Int(1), Event::MapEnd];
    assert_eq!(run(Format::Json, None, unit_key), Err(TranscodeError::UnsupportedValue));
    let int_key = vec![Event::MapStart, Event::Int(3), Event::Bool(true), Event::MapEnd];
    assert_eq!(run(Format::Json, None, int_key.clone()), Ok(int_key));
}

#[test]
fn ron_config_keeps_whole_floats_as_floats() {
    let cmd = CmdLineOptions { depth_limit: None, input_format: s("JSON"), output_format: s("RON") };
    let config = cmd.to_ron_pretty_config().into_pretty_config();
    let text = ron::ser::to_string_pretty(&vec![1.5f64, 100.0, 2.0], config).unwrap();
    let back: Vec<f64> = ron::de::from_str(&text).unwrap();
    assert_eq!(back, vec![1.5, 100.0, 2.0]);
    assert!(text.contains("2.0"));
    assert!(text.contains("100.0"));
}
