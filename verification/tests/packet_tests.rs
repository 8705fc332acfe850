use mermansi::adapters::packet::{render_packet, PacketBlock, PacketChart};
use mermansi::{render_source, MermansiError, MermansiOptions};

fn block(label: &str, start: i64, end: i64) -> PacketBlock {
    PacketBlock { label: label.to_string(), start, end }
}

#[test]
fn packet_without_words_is_a_card() {
    let chart = PacketChart { title: None, rows: Vec::new() };
    let out = render_packet(&chart, &MermansiOptions::unicode()).unwrap();
    assert!(out.contains("empty packet"));
}

#[test]
fn packet_empty_card_too_small_is_refused() {
    let chart = PacketChart { title: None, rows: Vec::new() };
    let err = render_packet(&chart, &MermansiOptions::unicode().with_max_height(2)).unwrap_err();
    assert!(matches!(err, MermansiError::RenderLimit { context: "packet empty card", requested: 16, limit: 2 }));
}

#[test]
fn packet_too_many_words_is_refused() {
    let rows = (0..4097).map(|_| Vec::new()).collect();
    let err = render_packet(&PacketChart { title: None, rows }, &MermansiOptions::unicode()).unwrap_err();
    assert!(matches!(err, MermansiError::RenderLimit { context: "packet rows", requested: 4097, limit: 4096 }));
}

#[test]
fn packet_too_many_fields_is_refused() {
    let rows = (0..129).map(|w| (0..32).map(|b| block("x", w * 32 + b, w * 32 + b)).collect()).collect();
    let err = render_packet(&PacketChart { title: None, rows }, &MermansiOptions::unicode()).unwrap_err();
    assert!(matches!(err, MermansiError::RenderLimit { context: "packet fields", requested: 4128, limit: 4096 }));
}

#[test]
fn packet_field_outside_its_word_is_refused() {
    let chart = PacketChart { title: None, rows: vec![vec![block("a", 0, 15), block("b", 16, 40)]] };
    let err = render_packet(&chart, &MermansiOptions::unicode()).unwrap_err();
    match err {
        MermansiError::GeometryLayout { family, message } => {
            assert_eq!(family, "packet");
            assert_eq!(message, "field range is outside its 32-bit word: 16..40");
        },
        other => panic!("unexpected error {other:?}"),
    }
}

#[test]
fn packet_needs_columns_for_bases_and_bits() {
    let chart = PacketChart { title: None, rows: vec![vec![block("a", 0, 31)]] };
    let err = render_packet(&chart, &MermansiOptions::unicode().with_max_width(30)).unwrap_err();
    assert!(matches!(err, MermansiError::RenderLimit { context: "packet columns", requested: 39, limit: 30 }));
}

#[test]
fn packet_draws_words_and_joins_continued_fields() {
    let chart = PacketChart {
        title: Some("Header".to_string()),
        rows: vec![
            vec![block("Source Port", 0, 15), block("Payload", 16, 31)],
            vec![block("Payload", 32, 47), block("Checksum", 48, 63)],
        ],
    };
    let out = render_packet(&chart, &MermansiOptions::ascii()).unwrap();
    assert!(out.contains("Header"));
    assert!(out.contains(" 0:"));
    assert!(out.contains("32:"));
    assert!(out.contains("Source Port"));
    assert!(out.contains("[2] Payload  16..47  (32 bits)"));
    assert!(out.contains("[3] Checksum  48..63  (16 bits)"));
}

#[test]
fn packet_source_is_drawn_by_the_library() {
    let out = render_source("packet-beta\n0-15: \"Source Port\"\n16-31: \"Destination Port\"\n", &MermansiOptions::unicode()).unwrap();
    assert!(out.contains("Source Port"));
}
