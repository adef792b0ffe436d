use kvs::filename::{
    format_generation, generation_of_name, log_path, parse_generation, Filename,
};
use kvs::store::{next_generation, sorted_gen_list};

#[test]
fn test_format() {
    assert_eq!("00000000000000000000000000000001", format!("{:032}", 1));
    assert_eq!(Filename::new(1), "0000000000000001".parse().unwrap());
    let filename = Filename::from("0000000000000001");
    assert_eq!(Filename::new(1), filename);
}

#[test]
fn invalid_name_reads_as_generation_zero() {
    let f = Filename::from("abc");
    assert!(!f.is_valid());
    assert_eq!(f.general, 0);
    assert!(Filename::new(7).is_valid());
    assert_eq!(Filename::new(42).to_string(), "0000000000000042");
}

#[test]
fn log_path_pads_to_sixteen_digits() {
    assert_eq!(log_path(1), "0000000000000001.log");
    assert_eq!(log_path(0), "0000000000000000.log");
    assert_eq!(log_path(1234567890123456), "1234567890123456.log");
    assert_eq!(log_path(u64::MAX), "18446744073709551615.log");
    assert_eq!(format_generation(99), "0000000000000099");
}

#[test]
fn parse_generation_follows_u64_from_str() {
    assert_eq!(parse_generation("0000000000000012"), Some(12));
    assert_eq!(parse_generation("+5"), Some(5));
    assert_eq!(parse_generation("+"), None);
    assert_eq!(parse_generation(""), None);
    assert_eq!(parse_generation("-1"), None);
    assert_eq!(parse_generation("12a"), None);
    assert_eq!(parse_generation("18446744073709551615"), Some(u64::MAX));
    assert_eq!(parse_generation("18446744073709551616"), None);
    assert_eq!(parse_generation("99999999999999999999"), None);
}

#[test]
fn generation_of_name_needs_log_extension() {
    assert_eq!(generation_of_name("0000000000000003.log"), Some(3));
    assert_eq!(generation_of_name("3.log"), Some(3));
    assert_eq!(generation_of_name("0000000000000003.txt"), None);
    assert_eq!(generation_of_name("notes.log"), None);
    assert_eq!(generation_of_name(".log"), None);
    assert_eq!(generation_of_name("log"), None);
}

#[test]
fn sorted_gen_list_orders_and_skips_other_files() {
    let names: Vec<String> = vec![
        "0000000000000010.log".to_string(),
        "readme.txt".to_string(),
        "0000000000000002.log".to_string(),
        "2.log".to_string(),
        "garbage.log".to_string(),
        "0000000000000007.log".to_string(),
    ];
    assert_eq!(sorted_gen_list(&names), vec![2, 7, 10]);
    assert_eq!(sorted_gen_list(&Vec::new()), Vec::<u64>::new());
}

#[test]
fn next_generation_is_one_past_the_largest() {
    assert_eq!(next_generation(&vec![]), Some(1));
    assert_eq!(next_generation(&vec![1, 2, 5]), Some(6));
    assert_eq!(next_generation(&vec![u64::MAX]), None);
}

#[test]
fn reopening_creates_increasing_generations() {
    let mut names: Vec<String> = Vec::new();
    let mut seen: Vec<u64> = Vec::new();
    for _ in 0..5 {
        let gens = sorted_gen_list(&names);
        let g = next_generation(&gens).unwrap();
        for old in &seen {
            assert!(*old < g);
        }
        seen.push(g);
        names.push(log_path(g));
    }
    assert_eq!(seen, vec![1, 2, 3, 4, 5]);
}
