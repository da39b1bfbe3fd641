use slapdash::csv::{
    judge_row, read_row, row_columns, split_columns, to_decimal, RowError, COLUMNS, TIME_FORMAT,
};

fn texts(columns: &[&str]) -> Vec<String> {
    columns.iter().map(|c| c.to_string()).collect()
}

#[test]
fn rows_have_three_columns() {
    assert_eq!(COLUMNS, 3);
    assert_eq!(TIME_FORMAT, "%Y-%m-%d %H:%M:%S");
}

#[test]
fn lines_split_at_commas() {
    assert_eq!(split_columns(""), texts(&[""]));
    assert_eq!(split_columns("abc"), texts(&["abc"]));
    assert_eq!(split_columns(","), texts(&["", ""]));
    assert_eq!(split_columns("a,b,c"), texts(&["a", "b", "c"]));
    assert_eq!(split_columns(",a,,b,"), texts(&["", "a", "", "b", ""]));
    assert_eq!(split_columns("série,ünï,ça"), texts(&["série", "ünï", "ça"]));
    assert_eq!(
        split_columns("my_example_series,2024-06-13 15:30:00,32.14"),
        texts(&["my_example_series", "2024-06-13 15:30:00", "32.14"])
    );
}

#[test]
fn splitting_agrees_with_std() {
    for line in ["", ",", ",,", "a,,b", "x,y,z,w", "no commas", "é,è", ",é"] {
        let expected: Vec<String> = line.split(',').map(|c| c.to_string()).collect();
        assert_eq!(split_columns(line), expected, "{:?}", line);
        assert_eq!(split_columns(line).join(","), line);
    }
}

fn read(line: &str) -> Result<(String, i64, f32), RowError> {
    let columns = row_columns(line)?;
    let value = columns[2].parse::<f32>().ok().map(f32::to_bits);
    let reading = read_row(&columns, value)?;
    Ok((reading.series, reading.time, f32::from_bits(reading.value)))
}

#[test]
fn good_row_is_read() {
    assert_eq!(
        read("my_example_series,2024-06-13 15:30:00,32.14"),
        Ok(("my_example_series".to_string(), 1718292600, 32.14))
    );
}

#[test]
fn times_count_from_the_epoch() {
    assert_eq!(read("s,1970-01-01 00:00:01,0"), Ok(("s".to_string(), 1, 0.0)));
    assert_eq!(read("s,1969-12-31 23:59:59,-2.5"), Ok(("s".to_string(), -1, -2.5)));
    assert_eq!(read(",2001-09-09 01:46:40,1e3"), Ok(("".to_string(), 1000000000, 1000.0)));
}

#[test]
fn three_columns_are_handed_out() {
    assert_eq!(row_columns("a,b,c"), Ok(texts(&["a", "b", "c"])));
    assert_eq!(row_columns(",,"), Ok(texts(&["", "", ""])));
    assert_eq!(row_columns("é, ,ü"), Ok(texts(&["é", " ", "ü"])));
}

#[test]
fn wrong_number_of_columns_is_refused() {
    for line in ["", "a", "a,b", "a,b,c,d", ",,,", "s,2024-06-13 15:30:00", "s,2024-06-13 15:30:00,1,2"] {
        assert_eq!(row_columns(line), Err(RowError::Columns), "{:?}", line);
        assert_eq!(read(line), Err(RowError::Columns), "{:?}", line);
    }
    assert_eq!(read_row(&texts(&["a", "2024-06-13 15:30:00"]), Some(0)).unwrap_err(), RowError::Columns);
    assert_eq!(
        read_row(&texts(&["a", "2024-06-13 15:30:00", "1", "2"]), Some(0)).unwrap_err(),
        RowError::Columns
    );
}

#[test]
fn unreadable_time_is_refused() {
    for line in [
        "s,,1",
        "s,yesterday,1",
        "s,2024-06-13,1",
        "s,2024-06-13T15:30:00,1",
        "s,2024-13-01 00:00:00,1",
        "s,2024-06-13 24:00:00,1",
        "s,2024-06-13 15:30:00 ,1",
        "s,2024-06-13 15:30:00 x,1",
    ] {
        assert_eq!(read(line), Err(RowError::Time), "{:?}", line);
    }
}

#[test]
fn unreadable_value_is_refused() {
    for line in ["s,2024-06-13 15:30:00,", "s,2024-06-13 15:30:00,much", "s,2024-06-13 15:30:00,1 2"] {
        assert_eq!(read(line), Err(RowError::Value), "{:?}", line);
    }
}

#[test]
fn time_is_judged_before_the_value() {
    assert_eq!(read("s,never,much"), Err(RowError::Time));
    assert_eq!(read_row(&texts(&["s", "never", "1"]), None).unwrap_err(), RowError::Time);
}

#[test]
fn columns_are_judged_first() {
    assert_eq!(judge_row(&texts(&["a", "b"]), Some(5), Some(1)).unwrap_err(), RowError::Columns);
    assert_eq!(judge_row(&texts(&["a", "b", "c", "d"]), None, None).unwrap_err(), RowError::Columns);
    assert_eq!(judge_row(&texts(&["a", "b", "c"]), None, None).unwrap_err(), RowError::Time);
    assert_eq!(judge_row(&texts(&["a", "b", "c"]), None, Some(1)).unwrap_err(), RowError::Time);
    assert_eq!(judge_row(&texts(&["a", "b", "c"]), Some(5), None).unwrap_err(), RowError::Value);
    let reading = judge_row(&texts(&["a", "b", "c"]), Some(-7), Some(1.5f32.to_bits())).unwrap();
    assert_eq!(reading.series, "a");
    assert_eq!(reading.time, -7);
    assert_eq!(f32::from_bits(reading.value), 1.5);
}

#[test]
fn numbers_are_written_in_decimal() {
    assert_eq!(to_decimal(0), "0");
    assert_eq!(to_decimal(7), "7");
    assert_eq!(to_decimal(10), "10");
    assert_eq!(to_decimal(409), "409");
    assert_eq!(to_decimal(1234567890), "1234567890");
    assert_eq!(to_decimal(usize::MAX), usize::MAX.to_string());
}

#[test]
fn messages_name_the_line() {
    assert_eq!(
        RowError::Columns.message(0),
        "At line 0. Invalid format. Each row of the CSV file should contain 3 columns: series, time and point."
    );
    assert_eq!(
        RowError::Time.message(41),
        "At line 41. Invalid format. The time column must be formatted as: 2024-06-13 15:30:00"
    );
    assert_eq!(
        RowError::Value.message(1000),
        "At line 1000. Invalid format. The value column must parse as an f32"
    );
}
