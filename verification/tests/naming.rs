use ungoliant::naming::{decimal, meta_file_name, part_file_name};

#[test]
fn decimal_writes_numbers_without_leading_zeros() {
    assert_eq!(decimal(0), "0");
    assert_eq!(decimal(7), "7");
    assert_eq!(decimal(10), "10");
    assert_eq!(decimal(109), "109");
    assert_eq!(decimal(9876543210), "9876543210");
    assert_eq!(decimal(u128::MAX), u128::MAX.to_string());
    for n in 0..2000u128 {
        assert_eq!(decimal(n), n.to_string());
    }
}

#[test]
fn the_first_part_is_named_by_the_language_alone() {
    assert_eq!(part_file_name("fr", 0), "fr.txt");
    assert_eq!(meta_file_name("en", 0), "en_meta.jsonl");
}

#[test]
fn later_parts_are_numbered_from_two() {
    assert_eq!(part_file_name("fr", 1), "fr_part_2.txt");
    assert_eq!(part_file_name("fr", 2), "fr_part_3.txt");
    assert_eq!(part_file_name("zh", 99), "zh_part_100.txt");
    assert_eq!(meta_file_name("en", 1), "en_meta_part_2.jsonl");
    assert_eq!(meta_file_name("pt-BR", 10), "pt-BR_meta_part_11.jsonl");
    assert_eq!(
        part_file_name("x", usize::MAX),
        format!("x_part_{}.txt", usize::MAX as u128 + 1)
    );
}
