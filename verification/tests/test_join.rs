use tablekit::error::JoinError;
use tablekit::join::{join, JoinOptions, JoinOutput};
use tablekit::mode::ModeFlags;

fn svec(fields: &[&str]) -> Vec<String> {
    fields.iter().map(|f| f.to_string()).collect()
}

fn table(rows: &[&[&str]]) -> Vec<Vec<String>> {
    rows.iter().map(|r| svec(r)).collect()
}

fn options(flags: &[&str]) -> JoinOptions {
    let mut o = JoinOptions::new();
    let mut m = ModeFlags::none();
    for f in flags {
        match *f {
            "--no-headers" => o.no_headers = true,
            "--ignore-case" => o.ignore_case = true,
            "--keys-output" => o.keys_output = true,
            "--left" => m.left = true,
            "--right" => m.right = true,
            "--full" => m.full = true,
            "--cross" => m.cross = true,
            "--left-semi" => m.left_semi = true,
            "--left-anti" => m.left_anti = true,
            "--right-semi" => m.right_semi = true,
            "--right-anti" => m.right_anti = true,
            other => panic!("unknown flag {}", other),
        }
    }
    o.modes = m;
    o
}

fn run(
    left: Vec<Vec<String>>,
    left_spec: &str,
    right: Vec<Vec<String>>,
    right_spec: &str,
    flags: &[&str],
) -> Result<JoinOutput, JoinError> {
    join(left, left_spec, right, right_spec, &options(flags))
}

fn cities(headers: bool) -> Vec<Vec<String>> {
    let mut rows = table(&[
        &["Boston", "MA"],
        &["New York", "NY"],
        &["San Francisco", "CA"],
        &["Buffalo", "NY"],
    ]);
    if headers {
        rows.insert(0, svec(&["city", "state"]));
    }
    rows
}

fn places(headers: bool) -> Vec<Vec<String>> {
    let mut rows = table(&[
        &["Boston", "Logan Airport"],
        &["Boston", "Boston Garden"],
        &["Buffalo", "Ralph Wilson Stadium"],
        &["Orlando", "Disney World"],
        &["BOSTON", "BOSTON COMMON"],
    ]);
    if headers {
        rows.insert(0, svec(&["city", "place"]));
    }
    rows
}

fn make_rows(headers: bool, left_only: bool, rows: Vec<Vec<String>>) -> Vec<Vec<String>> {
    let mut all_rows = vec![];
    if headers {
        if left_only {
            all_rows.push(svec(&["city", "state"]));
        } else {
            all_rows.push(svec(&["city", "state", "city", "place"]));
        }
    }
    all_rows.extend(rows.into_iter());
    all_rows
}

fn make_right_rows(headers: bool, rows: Vec<Vec<String>>) -> Vec<Vec<String>> {
    let mut all_rows = vec![];
    if headers {
        all_rows.push(svec(&["city", "place"]));
    }
    all_rows.extend(rows.into_iter());
    all_rows
}

fn city_join(headers: bool, flags: &[&str]) -> Vec<Vec<String>> {
    let mut all: Vec<&str> = flags.to_vec();
    let spec = if headers {
        "city"
    } else {
        all.push("--no-headers");
        "1"
    };
    run(cities(headers), spec, places(headers), spec, &all).unwrap().records()
}

fn inner_expected() -> Vec<Vec<String>> {
    table(&[
        &["Boston", "MA", "Boston", "Logan Airport"],
        &["Boston", "MA", "Boston", "Boston Garden"],
        &["Buffalo", "NY", "Buffalo", "Ralph Wilson Stadium"],
    ])
}

#[test]
fn join_inner_headers() {
    assert_eq!(city_join(true, &[]), make_rows(true, false, inner_expected()));
}

#[test]
fn join_inner_no_headers() {
    assert_eq!(city_join(false, &[]), make_rows(false, false, inner_expected()));
}

fn inner_casei_expected() -> Vec<Vec<String>> {
    table(&[
        &["Boston", "MA", "Boston", "Logan Airport"],
        &["Boston", "MA", "Boston", "Boston Garden"],
        &["Boston", "MA", "BOSTON", "BOSTON COMMON"],
        &["Buffalo", "NY", "Buffalo", "Ralph Wilson Stadium"],
    ])
}

#[test]
fn join_inner_casei_headers() {
    assert_eq!(
        city_join(true, &["--ignore-case"]),
        make_rows(true, false, inner_casei_expected())
    );
}

#[test]
fn join_inner_casei_no_headers() {
    assert_eq!(
        city_join(false, &["--ignore-case"]),
        make_rows(false, false, inner_casei_expected())
    );
}

fn outer_left_expected() -> Vec<Vec<String>> {
    table(&[
        &["Boston", "MA", "Boston", "Logan Airport"],
        &["Boston", "MA", "Boston", "Boston Garden"],
        &["New York", "NY", "", ""],
        &["San Francisco", "CA", "", ""],
        &["Buffalo", "NY", "Buffalo", "Ralph Wilson Stadium"],
    ])
}

#[test]
fn join_outer_left_headers() {
    assert_eq!(city_join(true, &["--left"]), make_rows(true, false, outer_left_expected()));
}

#[test]
fn join_outer_left_no_headers() {
    assert_eq!(city_join(false, &["--left"]), make_rows(false, false, outer_left_expected()));
}

fn outer_left_casei_expected() -> Vec<Vec<String>> {
    table(&[
        &["Boston", "MA", "Boston", "Logan Airport"],
        &["Boston", "MA", "Boston", "Boston Garden"],
        &["Boston", "MA", "BOSTON", "BOSTON COMMON"],
        &["New York", "NY", "", ""],
        &["San Francisco", "CA", "", ""],
        &["Buffalo", "NY", "Buffalo", "Ralph Wilson Stadium"],
    ])
}

#[test]
fn join_outer_left_casei_headers() {
    assert_eq!(
        city_join(true, &["--left", "--ignore-case"]),
        make_rows(true, false, outer_left_casei_expected())
    );
}

#[test]
fn join_outer_left_casei_no_headers() {
    assert_eq!(
        city_join(false, &["--left", "--ignore-case"]),
        make_rows(false, false, outer_left_casei_expected())
    );
}

fn outer_right_expected() -> Vec<Vec<String>> {
    table(&[
        &["Boston", "MA", "Boston", "Logan Airport"],
        &["Boston", "MA", "Boston", "Boston Garden"],
        &["Buffalo", "NY", "Buffalo", "Ralph Wilson Stadium"],
        &["", "", "Orlando", "Disney World"],
        &["", "", "BOSTON", "BOSTON COMMON"],
    ])
}

#[test]
fn join_outer_right_headers() {
    assert_eq!(city_join(true, &["--right"]), make_rows(true, false, outer_right_expected()));
}

#[test]
fn join_outer_right_no_headers() {
    assert_eq!(city_join(false, &["--right"]), make_rows(false, false, outer_right_expected()));
}

fn outer_right_casei_expected() -> Vec<Vec<String>> {
    // the left table is streamed, so the rows of Boston stay together and
    // only Orlando is left for the tail
    table(&[
        &["Boston", "MA", "Boston", "Logan Airport"],
        &["Boston", "MA", "Boston", "Boston Garden"],
        &["Boston", "MA", "BOSTON", "BOSTON COMMON"],
        &["Buffalo", "NY", "Buffalo", "Ralph Wilson Stadium"],
        &["", "", "Orlando", "Disney World"],
    ])
}

#[test]
fn join_outer_right_casei_headers() {
    assert_eq!(
        city_join(true, &["--right", "--ignore-case"]),
        make_rows(true, false, outer_right_casei_expected())
    );
}

#[test]
fn join_outer_right_casei_no_headers() {
    assert_eq!(
        city_join(false, &["--right", "--ignore-case"]),
        make_rows(false, false, outer_right_casei_expected())
    );
}

#[test]
fn join_outer_full_casei_headers() {
    let expected = table(&[
        &["Boston", "MA", "Boston", "Logan Airport"],
        &["Boston", "MA", "Boston", "Boston Garden"],
        &["Boston", "MA", "BOSTON", "BOSTON COMMON"],
        &["New York", "NY", "", ""],
        &["San Francisco", "CA", "", ""],
        &["Buffalo", "NY", "Buffalo", "Ralph Wilson Stadium"],
        &["", "", "Orlando", "Disney World"],
    ]);
    assert_eq!(city_join(true, &["--full", "--ignore-case"]), make_rows(true, false, expected));
}

#[test]
fn join_outer_full_headers() {
    let expected = table(&[
        &["Boston", "MA", "Boston", "Logan Airport"],
        &["Boston", "MA", "Boston", "Boston Garden"],
        &["New York", "NY", "", ""],
        &["San Francisco", "CA", "", ""],
        &["Buffalo", "NY", "Buffalo", "Ralph Wilson Stadium"],
        &["", "", "Orlando", "Disney World"],
        &["", "", "BOSTON", "BOSTON COMMON"],
    ]);
    assert_eq!(city_join(true, &["--full"]), make_rows(true, false, expected));
}

#[test]
fn join_outer_full_no_headers() {
    let expected = table(&[
        &["Boston", "MA", "Boston", "Logan Airport"],
        &["Boston", "MA", "Boston", "Boston Garden"],
        &["New York", "NY", "", ""],
        &["San Francisco", "CA", "", ""],
        &["Buffalo", "NY", "Buffalo", "Ralph Wilson Stadium"],
        &["", "", "Orlando", "Disney World"],
        &["", "", "BOSTON", "BOSTON COMMON"],
    ]);
    assert_eq!(city_join(false, &["--full"]), make_rows(false, false, expected));
}

#[test]
fn join_left_semi_headers() {
    let expected = table(&[&["Boston", "MA"], &["Buffalo", "NY"]]);
    assert_eq!(city_join(true, &["--left-semi"]), make_rows(true, true, expected));
}

#[test]
fn join_left_semi_no_headers() {
    let expected = table(&[&["Boston", "MA"], &["Buffalo", "NY"]]);
    assert_eq!(city_join(false, &["--left-semi"]), make_rows(false, true, expected));
}

#[test]
fn join_left_anti_headers() {
    let expected = table(&[&["New York", "NY"], &["San Francisco", "CA"]]);
    assert_eq!(city_join(true, &["--left-anti"]), make_rows(true, true, expected));
}

#[test]
fn join_left_anti_no_headers() {
    let expected = table(&[&["New York", "NY"], &["San Francisco", "CA"]]);
    assert_eq!(city_join(false, &["--left-anti"]), make_rows(false, true, expected));
}

#[test]
fn join_inner_issue11() {
    let a = table(&[&["1", "2"], &["3", "4"], &["5", "6"]]);
    let b = table(&[&["2", "1"], &["4", "3"], &["6", "5"]]);

    let got: Vec<Vec<String>> = run(a, "1,2", b, "2,1", &[]).unwrap().records();
    let expected = table(&[
        &["1", "2", "2", "1"],
        &["3", "4", "4", "3"],
        &["5", "6", "6", "5"],
    ]);
    assert_eq!(got, expected);
}

#[test]
fn join_cross() {
    let letters = table(&[&["h1", "h2"], &["a", "b"], &["c", "d"]]);
    let numbers = table(&[&["h3", "h4"], &["1", "2"], &["3", "4"]]);

    let got: Vec<Vec<String>> = run(letters, "", numbers, "", &["--cross"]).unwrap().records();
    let expected = table(&[
        &["h1", "h2", "h3", "h4"],
        &["a", "b", "1", "2"],
        &["a", "b", "3", "4"],
        &["c", "d", "1", "2"],
        &["c", "d", "3", "4"],
    ]);
    assert_eq!(got, expected);
}

#[test]
fn join_cross_no_headers() {
    let letters = table(&[&["a", "b"], &["c", "d"]]);
    let numbers = table(&[&["1", "2"], &["3", "4"]]);

    let got: Vec<Vec<String>> =
        run(letters, "", numbers, "", &["--cross", "--no-headers"]).unwrap().records();
    let expected = table(&[
        &["a", "b", "1", "2"],
        &["a", "b", "3", "4"],
        &["c", "d", "1", "2"],
        &["c", "d", "3", "4"],
    ]);
    assert_eq!(got, expected);
}

fn right_semi_expected() -> Vec<Vec<String>> {
    table(&[
        &["Boston", "Logan Airport"],
        &["Boston", "Boston Garden"],
        &["Buffalo", "Ralph Wilson Stadium"],
    ])
}

#[test]
fn join_right_semi_headers() {
    assert_eq!(city_join(true, &["--right-semi"]), make_right_rows(true, right_semi_expected()));
}

#[test]
fn join_right_semi_no_headers() {
    assert_eq!(city_join(false, &["--right-semi"]), make_right_rows(false, right_semi_expected()));
}

fn right_semi_casei_expected() -> Vec<Vec<String>> {
    table(&[
        &["Boston", "Logan Airport"],
        &["Boston", "Boston Garden"],
        &["Buffalo", "Ralph Wilson Stadium"],
        &["BOSTON", "BOSTON COMMON"],
    ])
}

#[test]
fn join_right_semi_casei_headers() {
    assert_eq!(
        city_join(true, &["--right-semi", "--ignore-case"]),
        make_right_rows(true, right_semi_casei_expected())
    );
}

#[test]
fn join_right_semi_casei_no_headers() {
    assert_eq!(
        city_join(false, &["--right-semi", "--ignore-case"]),
        make_right_rows(false, right_semi_casei_expected())
    );
}

fn right_anti_expected() -> Vec<Vec<String>> {
    table(&[&["Orlando", "Disney World"], &["BOSTON", "BOSTON COMMON"]])
}

#[test]
fn join_right_anti_headers() {
    assert_eq!(city_join(true, &["--right-anti"]), make_right_rows(true, right_anti_expected()));
}

#[test]
fn join_right_anti_no_headers() {
    assert_eq!(city_join(false, &["--right-anti"]), make_right_rows(false, right_anti_expected()));
}

#[test]
fn join_right_anti_casei_headers() {
    let expected = table(&[&["Orlando", "Disney World"]]);
    assert_eq!(
        city_join(true, &["--right-anti", "--ignore-case"]),
        make_right_rows(true, expected)
    );
}

#[test]
fn join_right_anti_casei_no_headers() {
    let expected = table(&[&["Orlando", "Disney World"]]);
    assert_eq!(
        city_join(false, &["--right-anti", "--ignore-case"]),
        make_right_rows(false, expected)
    );
}

fn letters() -> Vec<Vec<String>> {
    table(&[&["letter", "value"], &["a", "1"], &["b", "2"], &["c", "3"]])
}

fn numbers() -> Vec<Vec<String>> {
    table(&[&["letter", "num"], &["b", "foo"], &["c", "bar"], &["d", "baz"]])
}

fn key_rows(out: JoinOutput) -> Vec<Vec<String>> {
    out.keys.unwrap().rows
}

#[test]
fn join_keys_output_inner() {
    let out = run(letters(), "letter", numbers(), "letter", &["--keys-output"]).unwrap();
    let got: Vec<Vec<String>> = key_rows(out);
    let expected = table(&[&["b"], &["c"]]);
    assert_eq!(got, expected);
}

#[test]
fn join_keys_output_left_anti() {
    let out =
        run(letters(), "letter", numbers(), "letter", &["--left-anti", "--keys-output"]).unwrap();
    let got: Vec<Vec<String>> = key_rows(out);
    let expected = table(&[&["a"]]);
    assert_eq!(got, expected);
}

#[test]
fn join_keys_output_left_semi() {
    let out =
        run(letters(), "letter", numbers(), "letter", &["--left-semi", "--keys-output"]).unwrap();
    let got: Vec<Vec<String>> = key_rows(out);
    let expected = table(&[&["b"], &["c"]]);
    assert_eq!(got, expected);
}

#[test]
fn join_keys_output_full() {
    let out = run(letters(), "letter", numbers(), "letter", &["--full", "--keys-output"]).unwrap();
    let got: Vec<Vec<String>> = key_rows(out);
    let expected = table(&[&["b"], &["c"]]);
    assert_eq!(got, expected);
}

#[test]
fn join_keys_output_multiple_columns() {
    let data1 = table(&[
        &["city", "state", "val"],
        &["Boston", "MA", "1"],
        &["New York", "NY", "2"],
        &["Chicago", "IL", "3"],
    ]);
    let data2 = table(&[
        &["city", "state", "pop"],
        &["Boston", "MA", "100"],
        &["Chicago", "IL", "300"],
        &["Miami", "FL", "400"],
    ]);

    let out = run(data1, "city,state", data2, "city,state", &["--keys-output"]).unwrap();
    let got: Vec<Vec<String>> = key_rows(out);
    let expected = table(&[&["Boston", "MA"], &["Chicago", "IL"]]);
    assert_eq!(got, expected);
}

#[test]
fn join_keys_output_cross() {
    let letters = table(&[&["letter"], &["a"], &["b"]]);
    let numbers = table(&[&["num"], &["1"], &["2"]]);

    let result = run(letters, "letter", numbers, "num", &["--cross", "--keys-output"]);

    // Cross join should not produce any keys output
    let keys = result.ok().and_then(|out| out.keys);
    assert!(keys.is_none());
}
