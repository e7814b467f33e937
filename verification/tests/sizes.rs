use seed::conf::part::PartTotal;
use seed::conf::size::{
    data_size_bytes, match_data_size, parse_part_size, part_size_from, DataSize, PartSize,
};
use seed::diskmgr::util::{bytes_to_sectors, checked_part_size_sectors, get_part_size_sectors};

const TOKENS: &str = "[\"%\", \"%%\", \"min/max...\"] or [\"B\", \"KB\", \"MB\", \"GB\", \"TB\"]";

#[test]
fn bytes_to_sectors_exact_fit() {
    assert_eq!(bytes_to_sectors(1024, 512), 2);
}

#[test]
fn bytes_to_sectors_rounds_up() {
    assert_eq!(bytes_to_sectors(1000, 512), 2);
}

#[test]
fn bytes_to_sectors_edges() {
    assert_eq!(bytes_to_sectors(0, 512), 0);
    assert_eq!(bytes_to_sectors(1, 512), 1);
    assert_eq!(bytes_to_sectors(512, 512), 1);
    assert_eq!(bytes_to_sectors(513, 512), 2);
    assert_eq!(bytes_to_sectors(7, 1), 7);
    assert_eq!(bytes_to_sectors(u64::MAX, 1), u64::MAX);
    assert_eq!(bytes_to_sectors(u64::MAX, u64::MAX), 1);
    assert_eq!(bytes_to_sectors(9_007_199_254_740_993, 2), 4_503_599_627_370_497);
}

#[test]
fn bytes_to_sectors_is_the_least_count_that_holds_the_bytes() {
    for bytes in 0u64..200 {
        for sector in 1u64..20 {
            let n = bytes_to_sectors(bytes, sector);
            assert!(n * sector >= bytes);
            assert!(n == 0 || (n - 1) * sector < bytes);
        }
    }
}

#[test]
fn data_size_bytes_multiplies_by_1024_per_step() {
    assert_eq!(data_size_bytes(3, &DataSize::B), 3);
    assert_eq!(data_size_bytes(3, &DataSize::KB), 3 * 1024);
    assert_eq!(data_size_bytes(3, &DataSize::MB), 3 * 1024 * 1024);
    assert_eq!(data_size_bytes(3, &DataSize::GB), 3 * 1024 * 1024 * 1024);
    assert_eq!(data_size_bytes(3, &DataSize::TB), 3 * 1024 * 1024 * 1024 * 1024);
    assert_eq!(data_size_bytes(-2, &DataSize::KB), -2048);
    assert_eq!(data_size_bytes(0, &DataSize::TB), 0);
}

#[test]
fn match_data_size_knows_the_units() {
    assert_eq!(match_data_size("b"), Ok(DataSize::B));
    assert_eq!(match_data_size("kb"), Ok(DataSize::KB));
    assert_eq!(match_data_size("mb"), Ok(DataSize::MB));
    assert_eq!(match_data_size("gb"), Ok(DataSize::GB));
    assert_eq!(match_data_size("tb"), Ok(DataSize::TB));
    assert_eq!(match_data_size("MB"), Err("MB"));
    assert_eq!(match_data_size(""), Err(""));
    assert_eq!(match_data_size("pb"), Err("pb"));
}

#[test]
fn size_token_absolute() {
    assert_eq!(parse_part_size("500MB"), Ok(PartSize::Size(500, DataSize::MB)));
    assert_eq!(parse_part_size("1b"), Ok(PartSize::Size(1, DataSize::B)));
    assert_eq!(parse_part_size("20Gb"), Ok(PartSize::Size(20, DataSize::GB)));
    assert_eq!(parse_part_size("3tB"), Ok(PartSize::Size(3, DataSize::TB)));
    assert_eq!(parse_part_size("0kb"), Ok(PartSize::Size(0, DataSize::KB)));
    assert_eq!(parse_part_size("4294967295KB"), Ok(PartSize::Size(4294967295, DataSize::KB)));
}

#[test]
fn size_token_percent_of_total() {
    let size = parse_part_size("50%");
    assert_eq!(size, Ok(PartSize::PercentTotal(50)));
    match size {
        Ok(PartSize::PercentTotal(hundredths)) => assert_eq!(hundredths as f32 / 100.0, 0.5),
        _ => unreachable!(),
    }
}

#[test]
fn size_token_percent_of_free() {
    let size = parse_part_size("10%%");
    assert_eq!(size, Ok(PartSize::PercentFree(10)));
    match size {
        Ok(PartSize::PercentFree(hundredths)) => assert_eq!(hundredths as f32 / 100.0, 0.1),
        _ => unreachable!(),
    }
}

#[test]
fn size_token_total() {
    assert_eq!(parse_part_size("min"), Ok(PartSize::Total(PartTotal::Min)));
    assert_eq!(parse_part_size("max"), Ok(PartSize::Total(PartTotal::Max)));
}

#[test]
fn size_token_total_is_case_sensitive() {
    assert_eq!(
        parse_part_size("MAX"),
        Err("Invalid variant of PartTotal MAX, expected one of [\"min\", \"max\"]".to_string())
    );
}

#[test]
fn size_token_unknown_suffix_lists_what_is_valid() {
    let message = parse_part_size("500XB").unwrap_err();
    assert_eq!(message, format!("Invalid variant of PartSize xb, expected one of {}", TOKENS));
    for token in ["%", "%%", "min/max", "B", "KB", "MB", "GB", "TB"] {
        assert!(message.contains(token));
    }
}

#[test]
fn size_token_without_unit() {
    let expected = format!("Size tag can't be empty / must have a unit of {}", TOKENS);
    assert_eq!(parse_part_size("500"), Err(expected.clone()));
    assert_eq!(parse_part_size(""), Err(expected));
}

#[test]
fn size_token_number_too_large() {
    let expected = format!(
        "Invalid count 4294967296 in size tag, expected a number up to 4294967295 with a unit of {}",
        TOKENS
    );
    assert_eq!(parse_part_size("4294967296MB"), Err(expected.clone()));
    assert_eq!(parse_part_size("4294967296%"), Err(expected));
}

#[test]
fn size_token_unit_is_looked_at_before_the_number() {
    assert_eq!(
        parse_part_size("99999999999XB"),
        Err(format!("Invalid variant of PartSize xb, expected one of {}", TOKENS))
    );
}

#[test]
fn size_token_numeric_characters_that_are_no_digits() {
    // the Arabic-Indic digit three is numeric, and no decimal digit
    let message = parse_part_size("\u{0663}MB").unwrap_err();
    assert!(message.starts_with("Invalid count \u{0663} in size tag"));
}

#[test]
fn size_token_percent_needs_a_number() {
    assert_eq!(
        parse_part_size("%"),
        Err("Invalid variant of PartTotal %, expected one of [\"min\", \"max\"]".to_string())
    );
}

#[test]
fn part_size_from_takes_the_unit_as_given() {
    assert_eq!(part_size_from("7", "GB", "gb"), Ok(PartSize::Size(7, DataSize::GB)));
    assert!(part_size_from("7", "GB", "GB").is_err());
    assert_eq!(part_size_from("", "min", "whatever"), Ok(PartSize::Total(PartTotal::Min)));
}

#[test]
fn part_size_in_sectors() {
    assert_eq!(get_part_size_sectors(&PartSize::Size(1024, DataSize::B), 512), 2);
    assert_eq!(get_part_size_sectors(&PartSize::Size(1000, DataSize::B), 512), 2);
    assert_eq!(get_part_size_sectors(&PartSize::Size(500, DataSize::MB), 512), 1_024_000);
    assert_eq!(get_part_size_sectors(&PartSize::Size(1, DataSize::KB), 4096), 1);
    assert_eq!(get_part_size_sectors(&PartSize::Size(0, DataSize::GB), 512), 0);
}

#[test]
fn part_size_unresolved_is_one_sector() {
    assert_eq!(get_part_size_sectors(&PartSize::PercentTotal(50), 512), 1);
    assert_eq!(get_part_size_sectors(&PartSize::PercentFree(10), 4096), 1);
    assert_eq!(get_part_size_sectors(&PartSize::Total(PartTotal::Max), 1), 1);
    assert_eq!(get_part_size_sectors(&PartSize::Total(PartTotal::Min), 512), 1);
}

#[test]
fn part_size_checked() {
    assert_eq!(checked_part_size_sectors(&PartSize::Size(500, DataSize::MB), 512), Some(1_024_000));
    assert_eq!(
        checked_part_size_sectors(&PartSize::Size(8388607, DataSize::TB), 1),
        Some(8388607 * 1024 * 1024 * 1024 * 1024)
    );
    assert_eq!(checked_part_size_sectors(&PartSize::Size(8388608, DataSize::TB), 1), None);
    assert_eq!(checked_part_size_sectors(&PartSize::Size(u32::MAX, DataSize::TB), 512), None);
    assert_eq!(
        checked_part_size_sectors(&PartSize::Size(u32::MAX, DataSize::GB), 512),
        Some(u32::MAX as i64 * 2 * 1024 * 1024)
    );
    assert_eq!(checked_part_size_sectors(&PartSize::Total(PartTotal::Max), 512), Some(1));
}
