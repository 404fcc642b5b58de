use patterns::banner::{
    clean_line, find_marker, generate_cow, get_max_text_len, load_cows_from_texts,
    milk_random_cow, Cow, LoadError, TextTooLong,
};

#[test]
fn test_fn_get_max_text_len() {
    let image = vec![
        "asdfasdfasdf".to_string(),
        "111BEGIN   END222".to_string(),
        "asdfBEGIN   ENDzxcv".to_string(),
    ];

    let _ = get_max_text_len(image);
    assert_eq!(1, 1);
}

#[test]
fn capacity_is_the_width_of_the_first_marker() {
    let image = vec![
        "asdfasdfasdf".to_string(),
        "111BEGIN   END222".to_string(),
        "asdfBEGIN     ENDzxcv".to_string(),
    ];
    assert_eq!(get_max_text_len(image), Ok(11));
}

#[test]
fn no_marker_fails_with_no_placeholder_found() {
    let image = vec!["no marker here".to_string(), "BEGINEND".to_string()];
    assert_eq!(get_max_text_len(image), Err(LoadError::NoPlaceholderFound));
}

#[test]
fn find_marker_takes_the_leftmost_marker() {
    assert_eq!(find_marker("xxBEGIN  ENDyyBEGIN END"), Some((2, 12)));
    assert_eq!(find_marker("BEGINBEGIN END"), Some((5, 14)));
    assert_eq!(find_marker("BEGINEND"), None);
    assert_eq!(find_marker(""), None);
}

#[test]
fn clean_line_strips_quotes_then_collapses_backslashes() {
    assert_eq!(clean_line("\"abc\""), "abc");
    assert_eq!(clean_line("\"a\\\\b\""), "a\\b");
    assert_eq!(clean_line("plain"), "plain");
    assert_eq!(clean_line("\"\""), "");
    assert_eq!(clean_line("\""), "");
    assert_eq!(clean_line("\\\\\\\\"), "\\\\");
}

#[test]
fn render_checks_capacity_then_centers_the_text() {
    let cow = Cow::new(
        "box".to_string(),
        vec!["+----------+".to_string(), "|BEGIN   END|".to_string(), "+----------+".to_string()],
    )
    .unwrap();
    assert_eq!(cow.max_text_len(), 11);
    let out = generate_cow(cow, "hi".to_string()).unwrap();
    assert_eq!(out, "+----------+\n|    hi     |\n+----------+");
}

#[test]
fn render_capacity_ten_rejects_eleven_and_takes_ten() {
    let cow = Cow::new("t".to_string(), vec!["xxBEGIN  ENDyy".to_string()]).unwrap();
    assert_eq!(cow.max_text_len(), 10);
    let eleven = "abcdefghijk".to_string();
    assert_eq!(generate_cow(cow.clone(), eleven), Err(TextTooLong));
    let ten = "abcdefghij".to_string();
    let out = generate_cow(cow, ten).unwrap();
    assert_eq!(out, "xxabcdefghijyy");
    assert_eq!(out.len() - "xxyy".len(), 10);
}

#[test]
fn loading_one_record_measures_its_marker() {
    let record = "{\"name\": \"cow1\", \"image\": [\"xxBEGIN    ENDyy\"]}".to_string();
    let cows = load_cows_from_texts(&vec![record]).unwrap();
    assert_eq!(cows.len(), 1);
    assert_eq!(cows[0].max_text_len(), 12);
    assert_eq!(cows[0].name(), "\"cow1\"");
    assert_eq!(cows[0].image(), &vec!["xxBEGIN    ENDyy".to_string()]);
}

#[test]
fn loading_nothing_fails_with_no_templates_found() {
    let texts: Vec<String> = Vec::new();
    assert!(matches!(load_cows_from_texts(&texts), Err(LoadError::NoTemplatesFound)));
}

#[test]
fn unparseable_records_are_skipped() {
    let texts = vec![
        "not a record".to_string(),
        "{\"name\": \"ok\", \"image\": [\"BEGIN END\"]}".to_string(),
    ];
    let cows = load_cows_from_texts(&texts).unwrap();
    assert_eq!(cows.len(), 1);
    assert_eq!(cows[0].max_text_len(), 9);
}

#[test]
fn only_unparseable_records_fail_with_no_templates_found() {
    let texts = vec!["not a record".to_string(), "[1, 2]".to_string()];
    assert!(matches!(load_cows_from_texts(&texts), Err(LoadError::NoTemplatesFound)));
}

#[test]
fn a_record_without_marker_fails_the_load() {
    let texts = vec![
        "{\"name\": \"ok\", \"image\": [\"BEGIN END\"]}".to_string(),
        "{\"name\": \"bad\", \"image\": [\"no marker\"]}".to_string(),
    ];
    assert!(matches!(load_cows_from_texts(&texts), Err(LoadError::NoPlaceholderFound)));
}

#[test]
fn loaded_backslashes_come_out_single() {
    let record = "{\"name\": \"c\", \"image\": [\"a\\\\b BEGIN END\"]}".to_string();
    let cows = load_cows_from_texts(&vec![record]).unwrap();
    assert_eq!(cows[0].image(), &vec!["a\\b BEGIN END".to_string()]);
}

#[test]
fn test_fn_milk_random_cow() {
    let record = "{\"name\": \"cow1\", \"image\": [\"saying: BEGIN            END\"]}".to_string();
    let cows = load_cows_from_texts(&vec![record]).unwrap();
    for _i in 1..21 {
        let _ = milk_random_cow(cows.clone(), &"Hello World!".to_string());
    }
}

#[test]
fn a_pool_of_one_renders_that_template() {
    let cow = Cow::new("t".to_string(), vec!["<BEGIN      END>".to_string()]).unwrap();
    let direct = generate_cow(cow.clone(), "msg".to_string()).unwrap();
    let picked = milk_random_cow(vec![cow], &"msg".to_string()).unwrap();
    assert_eq!(picked, direct);
}

#[test]
fn a_pool_of_two_renders_one_of_them() {
    let a = Cow::new("a".to_string(), vec!["aBEGIN    ENDa".to_string()]).unwrap();
    let b = Cow::new("b".to_string(), vec!["bBEGIN    ENDb".to_string()]).unwrap();
    let out_a = generate_cow(a.clone(), "m".to_string()).unwrap();
    let out_b = generate_cow(b.clone(), "m".to_string()).unwrap();
    for _ in 0..20 {
        let picked = milk_random_cow(vec![a.clone(), b.clone()], &"m".to_string()).unwrap();
        assert!(picked == out_a || picked == out_b);
    }
}

#[test]
fn rendering_trims_the_message_before_centering() {
    let cow = Cow::new("t".to_string(), vec!["[BEGIN    END]".to_string()]).unwrap();
    let out = generate_cow(cow, "  hi  ".to_string()).unwrap();
    assert_eq!(out, "[     hi     ]");
}
