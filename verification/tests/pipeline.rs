use gait_split::filename::leg_mode;
use gait_split::filename::parse_name;
use gait_split::filename::remap_file_name;
use gait_split::filename::tmp_file_name;
use gait_split::remap::load_schema;
use gait_split::remap::parse_remap;
use gait_split::remap::resolve_remap_name;
use gait_split::selection::compute_selection;
use gait_split::selection::GaitRow;
use gait_split::table::canonicalise;
use gait_split::table::finalise_header;
use gait_split::table::get_version;
use gait_split::table::Column;
use gait_split::table::Table;
use gait_split::SplitError;

fn gait(pairs: &[(i64, i64)]) -> Vec<GaitRow> {
    pairs
        .iter()
        .map(|(s, e)| GaitRow { start: format!("{}", s), end: format!("{}", e) })
        .collect()
}

fn col(name: &str, cells: &[&str]) -> Column {
    Column {
        name: name.to_string(),
        cells: cells.iter().map(|c| c.to_string()).collect(),
    }
}

#[test]
fn parse_name_rejects_short_names() {
    let r = parse_name("a-b-c-d-e-f-g-h-i.csv");
    assert!(matches!(r, Err(SplitError::ParseNameFailed)));
}

#[test]
fn parse_name_accepts_ten_tokens() {
    let r = parse_name("s1-2024-01-02-walk-L-2-x-y-z.csv").unwrap();
    assert_eq!(r.len(), 10);
    assert_eq!(r[6], "2");
}

#[test]
fn parse_name_token_six_is_leg_mode() {
    let r = parse_name("a-b-c-d-e-f-1-h-i-j-k").unwrap();
    assert_eq!(r.len(), 11);
    assert_eq!(leg_mode(&r), "1");
}

#[test]
fn scratch_and_remap_names() {
    assert_eq!(tmp_file_name("run.csv"), "run.csv.tmp");
    assert_eq!(remap_file_name("3.14.22"), "3.14.22.csv");
}

#[test]
fn selection_two_middle_window() {
    let g = gait(&[(0, 1), (1, 2), (2, 3), (3, 4)]);
    assert_eq!(compute_selection(&g, "2", 50), "1-3");
}

#[test]
fn selection_two_single_row_full_width() {
    let g = gait(&[(0, 1)]);
    assert_eq!(compute_selection(&g, "2", 100), "0-1");
}

#[test]
fn selection_two_covers_floor_of_percent() {
    // 10 rows at 33 percent: floor(10 * 33 / 100) == 3 rows, centred on row 5.
    let g = gait(&[(0, 1), (1, 2), (2, 3), (3, 4), (4, 5), (5, 6), (6, 7), (7, 8), (8, 9), (9, 10)]);
    // range = 3, start = 5 - 1 = 4, slice rows 4..7 -> "4-7".
    assert_eq!(compute_selection(&g, "2", 33), "4-7");
}

#[test]
fn selection_one_even_zero_range_is_empty() {
    let g = gait(&[(0, 1), (1, 2), (2, 3), (3, 4), (4, 5), (5, 6)]);
    // half = 3, range = 3 * 33 / 100 = 0: both windows empty.
    assert_eq!(compute_selection(&g, "1", 33), "");
}

#[test]
fn selection_one_odd_two_windows() {
    let g = gait(&[(0, 1), (1, 2), (2, 3), (3, 4), (4, 5), (5, 6), (6, 7)]);
    // n = 7: half = 3, parity = 0; A covers row 1, B covers row 4.
    assert_eq!(compute_selection(&g, "1", 50), "1-2 4-5");
}

#[test]
fn selection_one_even_full_width() {
    let g = gait(&[(0, 1), (1, 2), (2, 3), (3, 4), (4, 5), (5, 6)]);
    // n = 6: half = 3, range = 3, A: start 1 - 1 = 0 rows 0..3;
    // B: middle = 3 + 1 + 1 = 5, start 4, rows 4..6 (clipped).
    assert_eq!(compute_selection(&g, "1", 100), "0-3 4-6");
}

#[test]
fn selection_other_mode_is_empty() {
    let g = gait(&[(0, 1), (1, 2)]);
    assert_eq!(compute_selection(&g, "0", 100), "");
    assert_eq!(compute_selection(&g, "left", 50), "");
}

#[test]
fn selection_empty_table_is_empty() {
    let g = gait(&[]);
    assert_eq!(compute_selection(&g, "2", 100), "");
    assert_eq!(compute_selection(&g, "1", 100), "");
}

#[test]
fn selection_zero_percent_is_empty() {
    let g = gait(&[(0, 1), (1, 2), (2, 3)]);
    assert_eq!(compute_selection(&g, "2", 0), "");
}

#[test]
fn remap_parse_two_columns() {
    let text = "ori,new\ntime,Time\nNoraxon MyoMotion-Joints-Shoulder RT-Abduction Hrz (deg),shoulder_rt\n";
    let schema = parse_remap(text).unwrap();
    assert_eq!(schema.ori_key, vec!["time", "Noraxon MyoMotion-Joints-Shoulder RT-Abduction Hrz (deg)"]);
    assert_eq!(schema.new_key, vec!["Time", "shoulder_rt"]);
}

#[test]
fn remap_parse_rejects_ragged_line() {
    let text = "ori,new\na,b\nc\n";
    assert!(matches!(parse_remap(text), Err(SplitError::CsvParse)));
    let text2 = "ori,new\na,b,c\n";
    assert!(matches!(parse_remap(text2), Err(SplitError::CsvParse)));
}

#[test]
fn remap_gate_missing_file() {
    let r = load_schema(None, "remaps/3.14.22.csv");
    match r {
        Err(SplitError::RemapNotFound(p)) => assert_eq!(p, "remaps/3.14.22.csv"),
        _ => panic!("expected RemapNotFound"),
    }
}

#[test]
fn remap_gate_unparsable_file() {
    let text = "ori,new\nbroken line without comma\n".to_string();
    let r = load_schema(Some(&text), "remaps/9.csv");
    match r {
        Err(SplitError::RemapNotFound(p)) => assert_eq!(p, "remaps/9.csv"),
        _ => panic!("expected RemapNotFound"),
    }
}

#[test]
fn remap_gate_good_file() {
    let text = "ori,new\na,b\n".to_string();
    let schema = load_schema(Some(&text), "remaps/9.csv").unwrap();
    assert_eq!(schema.ori_key, vec!["a"]);
    assert_eq!(schema.new_key, vec!["b"]);
}

#[test]
fn canonicalise_projects_and_renames() {
    // Wider than the schema: project onto ori_key, rename to new_key.
    let t = Table {
        cols: vec![
            col("junk", &["9", "9"]),
            col("time", &["0.1", "0.2"]),
            col("contact", &["1", "0"]),
        ],
    };
    let ori = vec!["contact".to_string(), "time".to_string()];
    let new = vec!["Contact".to_string(), "Time".to_string()];
    let out = canonicalise(t, &ori, &new).unwrap();
    assert_eq!(out.cols.len(), 2);
    assert_eq!(out.cols[0].name, "Contact");
    assert_eq!(out.cols[0].cells, vec!["1", "0"]);
    assert_eq!(out.cols[1].name, "Time");
    assert_eq!(out.cols[1].cells, vec!["0.1", "0.2"]);
}

#[test]
fn canonicalise_passes_canonical_through() {
    let t = Table { cols: vec![col("Time", &["0.1"]), col("Contact", &["1"])] };
    let ori = vec!["time".to_string(), "contact".to_string()];
    let new = vec!["Time".to_string(), "Contact".to_string()];
    let out = canonicalise(t, &ori, &new).unwrap();
    assert_eq!(out.cols.len(), 2);
    assert_eq!(out.cols[0].name, "Time");
    assert_eq!(out.cols[0].cells, vec!["0.1"]);
    assert_eq!(out.cols[1].name, "Contact");
}

#[test]
fn canonicalise_reports_missing_column() {
    let t = Table {
        cols: vec![col("a", &["1"]), col("b", &["2"]), col("c", &["3"])],
    };
    let ori = vec!["a".to_string(), "missing".to_string()];
    let new = vec!["A".to_string(), "M".to_string()];
    match canonicalise(t, &ori, &new) {
        Err(SplitError::SchemaMismatch(n)) => assert_eq!(n, "missing"),
        _ => panic!("expected SchemaMismatch"),
    }
}

#[test]
fn finalise_header_strips_pii_and_appends_selection() {
    let h = Table {
        cols: vec![
            col("exported with version", &["3.14.22"]),
            col("last_name", &["Doe"]),
            col("first_name", &["Jo"]),
            col("speed", &["4"]),
        ],
    };
    let out = finalise_header(&h, "1-3".to_string());
    let names: Vec<&str> = out.cols.iter().map(|c| c.name.as_str()).collect();
    assert_eq!(names, vec!["exported with version", "speed", "selection"]);
    assert!(!names.contains(&"last_name"));
    assert!(!names.contains(&"first_name"));
    assert_eq!(out.cols.last().unwrap().cells, vec!["1-3"]);
}

#[test]
fn resolver_composes_remap_name() {
    let h = Table {
        cols: vec![col("exported with version", &["3.14.22"]), col("speed", &["4"])],
    };
    assert_eq!(resolve_remap_name(&h).unwrap(), "3.14.22.csv");
    let bare = Table { cols: vec![col("speed", &["4"])] };
    match resolve_remap_name(&bare) {
        Err(SplitError::SchemaMismatch(n)) => assert_eq!(n, "exported with version"),
        _ => panic!("expected SchemaMismatch"),
    }
}

#[test]
fn version_cell_is_read_from_header() {
    let h = Table {
        cols: vec![col("other", &["x"]), col("exported with version", &["3.14.22"])],
    };
    assert_eq!(get_version(&h).unwrap(), "3.14.22");
    let empty = Table { cols: vec![col("other", &["x"])] };
    assert!(get_version(&empty).is_none());
}
