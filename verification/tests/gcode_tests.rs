//! Tests of the slicer G-code file parser: header, metadata, thumbnails
//! and command extraction.

use gantry::gcode::GcodeFile;

#[test]
fn commands_and_params_are_extracted() {
    let f = GcodeFile::parse("G1 X10  Y5 ; fast\nM104 S200\n; a comment\n\nG28\n");
    assert_eq!(f.commands.len(), 3);
    assert_eq!(f.commands[0].cmd, "G1");
    assert_eq!(f.commands[0].params, vec!["X10".to_string(), "Y5".to_string()]);
    assert_eq!(f.commands[1].cmd, "M104");
    assert_eq!(f.commands[1].params, vec!["S200".to_string()]);
    assert_eq!(f.commands[2].cmd, "G28");
    assert!(f.commands[2].params.is_empty());
}

#[test]
fn slicer_header_is_recognised() {
    let f = GcodeFile::parse("; generated by OrcaSlicer 2.2.0 on 2024-10-05 at 12:30:00\nG28\n");
    assert_eq!(f.slicer.slicer.as_deref(), Some("OrcaSlicer"));
    assert_eq!(f.slicer.version.as_deref(), Some("2.2.0"));
    assert_eq!(f.slicer.date.as_deref(), Some("2024-10-05"));
    assert_eq!(f.slicer.time.as_deref(), Some("12:30:00"));
}

#[test]
fn metadata_pairs_fill_the_record() {
    let text = "\
; filament used [mm] = 3701.23\n\
; filament used [g] = 11.25\n\
; total layers count = 240\n\
; estimated printing time (normal mode) = 45m 43s\n\
; estimated first layer printing time (normal mode) = 1h 2m 3s\n\
; unknown_key = some value\n\
G28\n";
    let f = GcodeFile::parse(text);
    assert_eq!(f.meta.filament_length_used, Some(3_701_230_000));
    assert_eq!(f.meta.filament_weight_used, Some(11_250_000));
    assert_eq!(f.meta.total_layers_count, Some(240));
    assert_eq!(f.meta.estimated_print_time, Some(2743));
    assert_eq!(f.meta.estimated_first_layer_print_time, Some(3723));
    // The unrecognised pair lands in the slicer configuration.
    assert_eq!(f.config.properties.len(), 1);
    assert_eq!(f.config.properties[0].0, "unknown_key");
    assert_eq!(f.config.properties[0].1, "some value");
}

#[test]
fn complete_thumbnail_is_decoded() {
    // "aGVsbG8=" is the standard base64 of "hello".
    let text = "\
; thumbnail begin 16x16 8\n\
; aGVs\n\
; bG8=\n\
; thumbnail end\n\
G28\n";
    let f = GcodeFile::parse(text);
    assert_eq!(f.thumbnails.len(), 1);
    assert_eq!(f.thumbnails[0].width, 16);
    assert_eq!(f.thumbnails[0].height, 16);
    assert_eq!(f.thumbnails[0].data, b"hello".to_vec());
    assert_eq!(f.commands.len(), 1);
}

#[test]
fn unterminated_thumbnail_is_discarded() {
    let text = "\
; thumbnail begin 16x16 8\n\
; aGVs\n\
G28\n";
    let f = GcodeFile::parse(text);
    assert!(f.thumbnails.is_empty());
    // The aborting line is read normally.
    assert_eq!(f.commands.len(), 1);
    assert_eq!(f.commands[0].cmd, "G28");
}

#[test]
fn non_continuation_comment_aborts_thumbnail() {
    let text = "\
; thumbnail begin 8x8 4\n\
; not base64 at all!\n\
; thumbnail end\n\
G28\n";
    let f = GcodeFile::parse(text);
    // The first comment aborts the block; the stray end marker is then an
    // ordinary comment.
    assert!(f.thumbnails.is_empty());
}

#[test]
fn repeated_config_properties_keep_the_last_value() {
    let f = GcodeFile::parse("; layer_gap = 1\n; layer_gap = 2\nG28\n");
    assert_eq!(f.config.properties.len(), 1);
    assert_eq!(f.config.properties[0].0, "layer_gap");
    assert_eq!(f.config.properties[0].1, "2");
}
