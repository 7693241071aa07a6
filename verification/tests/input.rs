use xyplot::config::Config;
use xyplot::input::{split_line, store_row, LineContent, ProcessLineResult};
use xyplot::types::{DataSet, Point, EMPTY_VALUE};

fn pt(x: f64, y: f64) -> Point {
    Point(x.to_bits(), y.to_bits())
}

fn process_line(
    config: &Config,
    dataset: &mut DataSet,
    line: &str,
    row_count: usize,
) -> ProcessLineResult {
    match split_line(line) {
        LineContent::Empty => ProcessLineResult::Empty,
        LineContent::Comment => ProcessLineResult::Comment,
        LineContent::Tokens(tokens) => {
            let values: Vec<u64> = tokens
                .iter()
                .map(|t| t.parse::<f64>().unwrap_or(f64::NAN).to_bits())
                .collect();
            let row_x = (row_count as f64).to_bits();
            store_row(config, dataset, row_count, row_x, &tokens, &values);
            ProcessLineResult::Data
        }
    }
}

#[test]
fn input_empty() {
    let config = Config::default();
    let mut dataset = DataSet::default();
    let line = "\n";
    let res = process_line(&config, &mut dataset, "", 0);
    assert_eq!(res, ProcessLineResult::Empty);
    let res = process_line(&config, &mut dataset, line, 0);
    assert_eq!(res, ProcessLineResult::Empty);
}

#[test]
fn input_comment() {
    let config = Config::default();
    let mut dataset = DataSet::default();
    let c1 = "# comment\n";
    let c2 = "// comment\n";
    let res = process_line(&config, &mut dataset, c1, 0);
    assert_eq!(res, ProcessLineResult::Comment);
    let res = process_line(&config, &mut dataset, c2, 0);
    assert_eq!(res, ProcessLineResult::Comment);
}

#[test]
fn input_null() {
    let config = Config::default();
    let mut dataset = DataSet::default();
    let line = "_";
    let res = process_line(&config, &mut dataset, line, 0);
    assert_eq!(res, ProcessLineResult::Data);
    assert_eq!(dataset.rows, 1);
    assert_eq!(dataset.columns, 1);
    assert_eq!(dataset.points[0][0], Point(0.0f64.to_bits(), EMPTY_VALUE));
}

#[test]
fn input_single() {
    let config = Config::default();
    let mut dataset = DataSet::default();
    let line = "1\n";
    let res = process_line(&config, &mut dataset, line, 0);
    assert_eq!(res, ProcessLineResult::Data);
    assert_eq!(dataset.rows, 1);
    assert_eq!(dataset.columns, 1);
    assert_eq!(dataset.points[0][0], pt(0.0, 1.0));
}

#[test]
fn input_pair() {
    let config = Config::default();
    let mut dataset = DataSet::default();
    let line = "1 2\n";
    let res = process_line(&config, &mut dataset, line, 0);
    assert_eq!(res, ProcessLineResult::Data);
    assert_eq!(dataset.rows, 1);
    assert_eq!(dataset.columns, 2);
    assert_eq!(dataset.points[0][0], pt(0.0, 1.0));
    assert_eq!(dataset.points[1][0], pt(0.0, 2.0));
}

#[test]
fn input_floats() {
    let config = Config::default();
    let mut dataset = DataSet::default();
    let line = "99.9 999.999\n";
    let res = process_line(&config, &mut dataset, line, 0);
    assert_eq!(res, ProcessLineResult::Data);
    assert_eq!(dataset.rows, 1);
    assert_eq!(dataset.columns, 2);
    assert_eq!(dataset.points[0][0], pt(0.0, 99.9));
    assert_eq!(dataset.points[1][0], pt(0.0, 999.999));
}

#[test]
fn input_csv() {
    let config = Config::default();
    let mut dataset = DataSet::default();
    let line = "1,2\n";
    let res = process_line(&config, &mut dataset, line, 0);
    assert_eq!(res, ProcessLineResult::Data);
    assert_eq!(dataset.rows, 1);
    assert_eq!(dataset.columns, 2);
    assert_eq!(dataset.points[0][0], pt(0.0, 1.0));
    assert_eq!(dataset.points[1][0], pt(0.0, 2.0));
}

#[test]
fn input_tab() {
    let config = Config::default();
    let mut dataset = DataSet::default();
    let line = "1\t2\n";
    let res = process_line(&config, &mut dataset, line, 0);
    assert_eq!(res, ProcessLineResult::Data);
    assert_eq!(dataset.rows, 1);
    assert_eq!(dataset.columns, 2);
    assert_eq!(dataset.points[0][0], pt(0.0, 1.0));
    assert_eq!(dataset.points[1][0], pt(0.0, 2.0));
}

#[test]
fn input_exponent() {
    let config = Config::default();
    let mut dataset = DataSet::default();
    let line = "-24e-7,+50e5";
    let res = process_line(&config, &mut dataset, line, 0);
    assert_eq!(res, ProcessLineResult::Data);
    assert_eq!(dataset.rows, 1);
    assert_eq!(dataset.columns, 2);
    assert_eq!(dataset.points[0][0], pt(0.0, -24e-7));
    assert_eq!(dataset.points[1][0], pt(0.0, 50e5));
}

#[test]
fn input_multiline() {
    let config = Config::default();
    let mut dataset = DataSet::default();

    assert_eq!(
        ProcessLineResult::Data,
        process_line(&config, &mut dataset, "23", 0)
    );
    assert_eq!(
        ProcessLineResult::Data,
        process_line(&config, &mut dataset, "24", 1)
    );

    assert_eq!(dataset.rows, 2);
    assert_eq!(dataset.columns, 1);
    assert_eq!(dataset.points[0][0], pt(0.0, 23.0));
    assert_eq!(dataset.points[0][1], pt(1.0, 24.0));
}

#[test]
fn input_single_column_null() {
    let config = Config::default();
    let mut dataset = DataSet::default();

    let lines = vec!["1278", "377", "316", "232", "_", "93", "63", "11"];
    for (i, line) in lines.iter().enumerate() {
        assert_eq!(
            ProcessLineResult::Data,
            process_line(&config, &mut dataset, line, i)
        );
    }

    assert_eq!(dataset.rows, 8);
    assert_eq!(dataset.columns, 1);
    assert_eq!(dataset.points[0][0], pt(0.0, 1278.0));
    assert_eq!(dataset.points[0][1], pt(1.0, 377.0));
    assert_eq!(dataset.points[0][2], pt(2.0, 316.0));
    assert_eq!(dataset.points[0][3], pt(3.0, 232.0));
    assert_eq!(dataset.points[0][4], Point(4.0f64.to_bits(), EMPTY_VALUE));
    assert_eq!(dataset.points[0][5], pt(5.0, 93.0));
    assert_eq!(dataset.points[0][6], pt(6.0, 63.0));
    assert_eq!(dataset.points[0][7], pt(7.0, 11.0));
}

#[test]
fn input_multiline_null() {
    let config = Config::default();
    let mut dataset = DataSet::default();

    assert_eq!(
        ProcessLineResult::Data,
        process_line(&config, &mut dataset, "1,2,3", 0)
    );

    assert_eq!(
        ProcessLineResult::Data,
        process_line(&config, &mut dataset, "4,,6", 1)
    );

    assert_eq!(dataset.rows, 2);
    assert_eq!(dataset.columns, 3);

    let exp0_0 = pt(0.0, 1.0);
    let exp0_1 = pt(0.0, 2.0);
    let exp0_2 = pt(0.0, 3.0);

    let exp1_0 = pt(1.0, 4.0);
    let exp1_1 = Point(1.0f64.to_bits(), EMPTY_VALUE);
    let exp1_2 = pt(1.0, 6.0);

    assert_eq!(dataset.points[0][0], exp0_0);
    assert_eq!(dataset.points[1][0], exp0_1);
    assert_eq!(dataset.points[2][0], exp0_2);

    assert_eq!(dataset.points[0][1], exp1_0);
    assert_eq!(dataset.points[1][1], exp1_1);
    assert_eq!(dataset.points[2][1], exp1_2);
}

#[test]
fn input_trailing_null() {
    let config = Config::default();
    let mut dataset = DataSet::default();
    assert_eq!(
        ProcessLineResult::Data,
        process_line(&config, &mut dataset, "1,2,3,", 0)
    );

    assert_eq!(dataset.rows, 1);
    assert_eq!(dataset.columns, 4);

    let exp0_0 = pt(0.0, 1.0);
    let exp0_1 = pt(0.0, 2.0);
    let exp0_2 = pt(0.0, 3.0);
    let exp0_3 = Point(0.0f64.to_bits(), EMPTY_VALUE);

    assert_eq!(dataset.points[0][0], exp0_0);
    assert_eq!(dataset.points[1][0], exp0_1);
    assert_eq!(dataset.points[2][0], exp0_2);
    assert_eq!(dataset.points[3][0], exp0_3);
}

#[test]
fn input_leading_null() {
    let config = Config::default();
    let mut dataset = DataSet::default();
    assert_eq!(
        ProcessLineResult::Data,
        process_line(&config, &mut dataset, ",1,2,3", 0)
    );

    assert_eq!(dataset.rows, 1);
    assert_eq!(dataset.columns, 4);

    let exp0_0 = Point(0.0f64.to_bits(), EMPTY_VALUE);
    let exp0_1 = pt(0.0, 1.0);
    let exp0_2 = pt(0.0, 2.0);
    let exp0_3 = pt(0.0, 3.0);

    assert_eq!(dataset.points[0][0], exp0_0);
    assert_eq!(dataset.points[1][0], exp0_1);
    assert_eq!(dataset.points[2][0], exp0_2);
    assert_eq!(dataset.points[3][0], exp0_3);
}

#[test]
fn row_with_more_columns_pads_previous_with_nulls() {
    let config = Config::default();
    let mut dataset = DataSet::default();

    assert_eq!(
        ProcessLineResult::Data,
        process_line(&config, &mut dataset, "1", 0)
    );
    assert_eq!(
        ProcessLineResult::Data,
        process_line(&config, &mut dataset, "1,1", 1)
    );
    assert_eq!(
        ProcessLineResult::Data,
        process_line(&config, &mut dataset, "1,2,1", 2)
    );

    let points: [[Point; 3]; 3] = [
        [pt(0.0, 1.0), pt(1.0, 1.0), pt(2.0, 1.0)],
        [
            Point(0.0f64.to_bits(), EMPTY_VALUE),
            pt(1.0, 1.0),
            pt(2.0, 2.0),
        ],
        [
            Point(0.0f64.to_bits(), EMPTY_VALUE),
            Point(1.0f64.to_bits(), EMPTY_VALUE),
            pt(2.0, 1.0),
        ],
    ];

    for (i, col) in points.iter().enumerate() {
        for (j, point) in col.iter().enumerate() {
            assert_eq!(dataset.points[i][j], *point);
        }
    }
}

#[test]
fn x_column_negative_numbers() {
    let config = Config {
        x_column: true,
        ..Default::default()
    };

    let mut dataset = DataSet::default();

    let line = "-300 -400";

    assert_eq!(
        ProcessLineResult::Data,
        process_line(&config, &mut dataset, line, 0)
    );

    assert_eq!(dataset.rows, 1);
    assert_eq!(dataset.columns, 1);

    let exp0_0 = pt(-300.0, -400.0);

    assert_eq!(dataset.points[0][0], exp0_0);
}

#[test]
fn split_line_tokens() {
    match split_line("  1.5,-2e3 x7 # tail") {
        LineContent::Tokens(toks) => {
            let toks: Vec<&str> = toks.iter().map(|t| t.as_str()).collect();
            assert_eq!(toks, vec!["", "", "1.5", "-2e3", "", "7", ""]);
        }
        _ => panic!("expected tokens"),
    }
}

#[test]
fn single_slash_is_data() {
    // A lone slash separates tokens like any other non-number character;
    // only two consecutive slashes open a comment.
    let config = Config::default();
    let mut dataset = DataSet::default();
    let res = process_line(&config, &mut dataset, "3/4 5", 0);
    assert_eq!(res, ProcessLineResult::Data);
    assert_eq!(dataset.rows, 1);
    assert_eq!(dataset.columns, 3);
    assert_eq!(dataset.points[0][0], pt(0.0, 3.0));
    assert_eq!(dataset.points[1][0], pt(0.0, 4.0));
    assert_eq!(dataset.points[2][0], pt(0.0, 5.0));
}

#[test]
fn double_slash_cuts_line() {
    match split_line("1 2 // trailing words") {
        LineContent::Tokens(toks) => {
            let toks: Vec<&str> = toks.iter().map(|t| t.as_str()).collect();
            assert_eq!(toks, vec!["1", "2", ""]);
        }
        _ => panic!("expected tokens"),
    }
    match split_line("/1") {
        LineContent::Tokens(toks) => {
            let toks: Vec<&str> = toks.iter().map(|t| t.as_str()).collect();
            assert_eq!(toks, vec!["", "1"]);
        }
        _ => panic!("expected tokens"),
    }
}

#[test]
fn split_line_comment_only_after_trim() {
    match split_line("# leading comment") {
        LineContent::Comment => {}
        _ => panic!("expected a comment"),
    }
    match split_line("   \t \n") {
        LineContent::Empty => {}
        _ => panic!("expected an empty line"),
    }
}
