use m_guitar::float_text::reads_above_zero_check;
use m_guitar::parse_musicxml;

fn credits_with_page(width: &str, height: &str) -> usize {
    let xml = format!(
        r#"<?xml version="1.0" encoding="UTF-8"?>
<score-partwise version="4.0">
  <defaults><page-layout><page-width>{}</page-width><page-height>{}</page-height></page-layout></defaults>
  <credit><credit-words default-x="10" default-y="20">Title</credit-words></credit>
  <part-list><score-part id="P1"><part-name>Test</part-name></score-part></part-list>
  <part id="P1"><measure number="1"><note><rest/><duration>4</duration><type>whole</type></note></measure></part>
</score-partwise>"#,
        width, height
    );
    parse_musicxml(&xml).expect("should parse").credits.len()
}

#[test]
fn credits_kept_for_positive_page_sizes() {
    assert_eq!(credits_with_page("1310", "1850"), 1);
    assert_eq!(credits_with_page("1.31e3", "+1850.5"), 1);
    assert_eq!(credits_with_page(".5", "7."), 1);
}

#[test]
fn credits_dropped_for_zero_or_negative_page_sizes() {
    assert_eq!(credits_with_page("0", "1850"), 0);
    assert_eq!(credits_with_page("1310", "-1850"), 0);
    assert_eq!(credits_with_page("0.000e7", "1850"), 0);
    assert_eq!(credits_with_page("-0", "1850"), 0);
    assert_eq!(credits_with_page("1e-50", "1850"), 0);
}

#[test]
fn credits_dropped_for_unreadable_page_sizes() {
    assert_eq!(credits_with_page("wide", "1850"), 0);
    assert_eq!(credits_with_page("1310", "12px"), 0);
    assert_eq!(credits_with_page("1.2.3", "1850"), 0);
    assert_eq!(credits_with_page(".", "1850"), 0);
    assert_eq!(credits_with_page("1e", "1850"), 0);
}

#[test]
fn float_texts_read_above_zero_as_the_std_parser_does() {
    let cases = [
        "1", "+2", "3.", ".4", "5e3", "6E-2", "7e+1", "0.01", "inf", "INF", "+Infinity", "nan",
        "-NaN", "0", "-1", "-inf", "0e9", "00.000", "", "+", "-", "e5", "1e", "1e+", "1..2",
        "1.2.3", "in", "infinit", "nanx", "１", " 1", "1 ", "0x10", "7e-46", "8e-46", "1e-45",
        "1e-46", "0.0000001e-38", "000.0007e-42", "000.00071e-42", "12e-47", "1e99999999999999999999",
        "1e-99999999999999999999",
        "7.00649232162408535461864791644958065640130970938257885878534141944895541342930300743319094181060791015625e-46",
        "7.006492321624085354618647916449580656401309709382578858785341419448955413429303007433190941810607910156251e-46",
        "0.70064923216240853546186479164495806564013097093825788587853414194489554134293030074331909418106079101562500000e-45",
        "700649232162408535461864791644958065640130970938257885878534141944895541342930300743319094181060791015626e-150",
        "7.0064923216240853546186479164495806564013097093825788587853414194489554134293030074331909418106079101562e-46",
    ];
    for t in cases {
        let expected = match t.parse::<f32>() {
            Ok(v) => !(v <= 0.0),
            Err(_) => false,
        };
        assert_eq!(reads_above_zero_check(t), expected, "text {:?}", t);
    }
}
