use log_archive::selectors::{
    invalid_ndjson, ndjson_lines, parse_csv_selectors, selector_from_ndjson_record,
    NdjsonSelectorRecord, Selector,
};
use log_archive::types::ArchiveLocator;

const HEADER: &str =
    "kind, sequence,from,count,segment_id,segment_generation,file_offset,frame_len";

fn csv(lines: &[&str]) -> Result<Vec<Selector>, String> {
    let mut input = HEADER.to_string();
    for line in lines {
        input.push('\n');
        input.push_str(line);
    }
    parse_csv_selectors(&input).map_err(|error| error.message().unwrap())
}

fn refused(line: &str) -> String {
    csv(&["", line]).unwrap_err()
}

#[test]
fn tables_of_selectors_are_read() {
    assert_eq!(
        csv(&[
            "sequence,7,,,,,,\r",
            "   ",
            "range,,3,+12,,,,",
            " locator , ,,, 1 ,2, 76 ,80 ",
            "",
        ]),
        Ok(vec![
            Selector::Sequence(7),
            Selector::Range { from: 3, count: 12 },
            Selector::Locator(ArchiveLocator {
                segment_id: 1,
                segment_generation: 2,
                file_offset: 76,
                frame_len: 80,
            }),
        ]),
    );
    assert_eq!(csv(&[]), Ok(vec![]));
}

#[test]
fn columns_may_stand_in_any_order() {
    let input = "frame_len,extra,kind,sequence,from,count,segment_id,segment_generation,\
                 file_offset\n,x,sequence,5,,,,,\n";
    assert_eq!(parse_csv_selectors(input).unwrap(), vec![Selector::Sequence(5)]);
}

#[test]
fn tables_without_a_header_are_refused() {
    let refusal = |input: &str| parse_csv_selectors(input).unwrap_err().message().unwrap();
    assert_eq!(refusal(""), "csv selector input is empty");
    assert_eq!(refusal(" \t\nkind"), "csv selector input is empty");
    assert_eq!(refusal("kind,from"), "csv selector header is missing 'sequence'");
    assert_eq!(
        refusal("kind,sequence,from,count,segment_id,segment_generation,file_offset"),
        "csv selector header is missing 'frame_len'",
    );
}

#[test]
fn lines_of_a_table_are_refused_with_their_number() {
    assert_eq!(refused("sequence,7"), "csv selector line 3: expected 8 columns, got 2");
    assert_eq!(refused("sequence,,,,,,,"), "csv selector line 3: missing field 'sequence'");
    assert_eq!(
        refused("sequence,-1,,,,,,"),
        "csv selector line 3: invalid u64 in field 'sequence'",
    );
    assert_eq!(
        refused("sequence,18446744073709551616,,,,,,"),
        "csv selector line 3: invalid u64 in field 'sequence'",
    );
    assert_eq!(
        refused("range,,1,many,,,,"),
        "csv selector line 3: invalid usize in field 'count'",
    );
    assert_eq!(refused("range,,1,0,,,,"), "csv selector line 3: count must be > 0");
    assert_eq!(
        refused("locator,,,,1,4294967296,2,3"),
        "csv selector line 3: invalid u32 in field 'segment_generation'",
    );
    assert_eq!(
        refused("locator,,,,1,0,2,3"),
        "invalid locator segment generation '0', expected > 0",
    );
    assert_eq!(
        refused("locator,,,,1,1,2,0"),
        "invalid locator frame_len '0', expected > 0",
    );
    assert_eq!(
        refused("window,,,,,,,"),
        "csv selector line 3: unsupported kind 'window'",
    );
}

fn json(kind: &str) -> NdjsonSelectorRecord {
    NdjsonSelectorRecord {
        kind: kind.to_string(),
        sequence: None,
        from: None,
        count: None,
        segment_id: None,
        segment_generation: None,
        file_offset: None,
        frame_len: None,
    }
}

#[test]
fn records_of_json_become_selectors() {
    let refusal = |record: NdjsonSelectorRecord| {
        selector_from_ndjson_record(record, 4).unwrap_err().message().unwrap()
    };
    assert_eq!(
        refusal(json("sequence")),
        "ndjson selector line 4: missing field 'sequence' for kind=sequence",
    );
    assert_eq!(
        selector_from_ndjson_record(
            NdjsonSelectorRecord { sequence: Some(9), ..json("sequence") },
            4,
        )
        .unwrap(),
        Selector::Sequence(9),
    );
    let mut range = json("range");
    assert_eq!(
        refusal(range.clone()),
        "ndjson selector line 4: missing field 'from' for kind=range",
    );
    range.from = Some(1);
    assert_eq!(
        refusal(range.clone()),
        "ndjson selector line 4: missing field 'count' for kind=range",
    );
    range.count = Some(0);
    assert_eq!(refusal(range.clone()), "ndjson selector line 4: count must be > 0");
    range.count = Some(2);
    assert_eq!(
        selector_from_ndjson_record(range, 4).unwrap(),
        Selector::Range { from: 1, count: 2 },
    );
    let mut locator = json("locator");
    assert_eq!(
        refusal(locator.clone()),
        "ndjson selector line 4: missing field 'segment_id' for kind=locator",
    );
    locator.segment_id = Some(1);
    assert_eq!(
        refusal(locator.clone()),
        "ndjson selector line 4: missing field 'segment_generation' for kind=locator",
    );
    locator.segment_generation = Some(1);
    assert_eq!(
        refusal(locator.clone()),
        "ndjson selector line 4: missing field 'file_offset' for kind=locator",
    );
    locator.file_offset = Some(76);
    assert_eq!(
        refusal(locator.clone()),
        "ndjson selector line 4: missing field 'frame_len' for kind=locator",
    );
    locator.frame_len = Some(0);
    assert_eq!(refusal(locator), "invalid locator frame_len '0', expected > 0");
    assert_eq!(
        refusal(json("window")),
        "ndjson selector line 4: unsupported kind 'window'",
    );
}

#[test]
fn blank_lines_count_but_are_left_out() {
    let lines = ndjson_lines("\n {\"a\":1} \r\n\t\n{}");
    assert_eq!(
        lines.iter().map(|line| (line.number, line.text.as_str())).collect::<Vec<_>>(),
        vec![(2, "{\"a\":1}"), (4, "{}")],
    );
    assert_eq!(
        invalid_ndjson(2, "expected value").message().unwrap(),
        "invalid ndjson selector at line 2: expected value",
    );
}
