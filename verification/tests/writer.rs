use ungoliant::writer::{Item, Part, Writer};

fn item(text: &str, metadata: &str) -> Item {
    Item { text: text.to_string(), metadata: metadata.to_string() }
}

fn counts(writer: &Writer) -> Vec<usize> {
    writer.parts().iter().map(|part| part.nb_items()).collect()
}

#[test]
fn new_part_is_open_and_empty() {
    let part = Part::new();
    assert_eq!(part.content(), "");
    assert_eq!(part.meta(), "[");
    assert_eq!(part.nb_items(), 0);
    assert_eq!(part.nb_bytes(), 0);
    assert!(!part.is_closed());
}

#[test]
fn push_appends_to_both_streams() {
    let mut part = Part::new();
    part.push(&item("première", "{\"n\":1}"));
    part.push(&item("", "{\"n\":2}"));
    assert_eq!(part.content(), "première\n\n");
    assert_eq!(part.meta(), "[{\"n\":1},{\"n\":2},");
    assert_eq!(part.nb_items(), 2);
    assert_eq!(part.nb_bytes(), 11);
    assert!(!part.is_closed());
}

#[test]
fn close_meta_strips_the_last_separator() {
    let mut part = Part::new();
    part.push(&item("a", "{\"k\":[1,2]}"));
    part.push(&item("b", "{\"k\":[3]}"));
    part.close_meta();
    assert_eq!(part.meta(), "[{\"k\":[1,2]},{\"k\":[3]}]");
    assert!(part.is_closed());
    let parsed: Vec<serde_json::Value> = serde_json::from_str(part.meta()).unwrap();
    assert_eq!(parsed.len(), 2);
    assert_eq!(parsed[0]["k"][1], 2);
    assert_eq!(parsed[1]["k"][0], 3);
}

#[test]
fn close_meta_of_an_empty_part_is_an_empty_array() {
    let mut part = Part::new();
    part.close_meta();
    assert_eq!(part.meta(), "[]");
    assert_eq!(part.content(), "");
}

#[test]
fn close_meta_twice_is_close_meta_once() {
    let mut part = Part::new();
    part.push(&item("a", "1"));
    part.close_meta();
    part.close_meta();
    assert_eq!(part.meta(), "[1]");
}

#[test]
fn writing_after_close_lands_behind_the_bracket() {
    let mut part = Part::new();
    part.push(&item("a", "1"));
    part.close_meta();
    part.push(&item("b", "2"));
    assert_eq!(part.meta(), "[1]2,");
    assert!(!part.is_closed());
    part.close_meta();
    assert_eq!(part.meta(), "[1]2]");
}

#[test]
fn three_items_of_twenty_bytes_with_limit_ten_make_three_parts() {
    let mut writer = Writer::new("fr", Some(10));
    let text = "0123456789012345678";
    assert_eq!(text.len() + 1, 20);
    writer.write(vec![item(text, "\"a\""), item(text, "\"b\""), item(text, "\"c\"")]);
    assert_eq!(writer.nb_parts(), 3);
    assert_eq!(counts(&writer), vec![1, 1, 1]);
    for part in writer.parts().iter() {
        assert_eq!(part.content(), "0123456789012345678\n");
        assert_eq!(part.nb_bytes(), 20);
    }
    assert_eq!(writer.parts()[0].meta(), "[\"a\"]");
    assert_eq!(writer.parts()[1].meta(), "[\"b\"]");
    assert_eq!(writer.parts()[2].meta(), "[\"c\",");
    writer.close_meta();
    assert_eq!(writer.parts()[2].meta(), "[\"c\"]");
}

#[test]
fn without_limit_there_is_one_part() {
    let mut writer = Writer::new("en", None);
    let items: Vec<Item> = (0..50).map(|i| item(&"x".repeat(1000), &i.to_string())).collect();
    writer.write(items);
    assert_eq!(writer.nb_parts(), 1);
    assert_eq!(counts(&writer), vec![50]);
    assert_eq!(writer.parts()[0].nb_bytes(), 50 * 1001);
}

#[test]
fn a_part_is_filled_up_to_the_limit() {
    // 4 bytes each: "abc" and the line feed
    let mut writer = Writer::new("en", Some(8));
    writer.write((0..5).map(|i| item("abc", &i.to_string())).collect());
    assert_eq!(counts(&writer), vec![2, 2, 1]);
    assert_eq!(writer.parts()[0].content(), "abc\nabc\n");
    assert_eq!(writer.parts()[0].meta(), "[0,1]");
    assert_eq!(writer.parts()[1].meta(), "[2,3]");
    assert_eq!(writer.parts()[2].meta(), "[4,");
}

#[test]
fn limit_counts_bytes_not_characters() {
    // "éé" takes four bytes, and five with its line feed
    let mut writer = Writer::new("fr", Some(9));
    writer.write(vec![item("éé", "0"), item("éé", "1")]);
    assert_eq!(counts(&writer), vec![1, 1]);
    let mut writer = Writer::new("fr", Some(10));
    writer.write(vec![item("éé", "0"), item("éé", "1")]);
    assert_eq!(counts(&writer), vec![2]);
}

#[test]
fn an_oversized_item_goes_to_a_part_of_its_own() {
    let mut writer = Writer::new("en", Some(5));
    writer.write(vec![item("ab", "0"), item("a much longer line", "1"), item("cd", "2")]);
    assert_eq!(counts(&writer), vec![1, 1, 1]);
    assert_eq!(writer.parts()[1].content(), "a much longer line\n");
}

#[test]
fn limit_zero_gives_one_item_to_each_part() {
    let mut writer = Writer::new("en", Some(0));
    writer.write(vec![item("", "0"), item("", "1"), item("", "2")]);
    assert_eq!(counts(&writer), vec![1, 1, 1]);
}

#[test]
fn no_part_is_empty_once_an_item_is_written() {
    for limit in [0u64, 1, 3, 7, 20, 1000] {
        let mut writer = Writer::new("en", Some(limit));
        let mut written = 0;
        for round in 0..6 {
            let items: Vec<Item> =
                (0..round).map(|i| item(&"y".repeat(i * 3), &i.to_string())).collect();
            written += items.len();
            writer.write(items);
        }
        assert!(writer.parts().iter().all(|part| part.nb_items() > 0));
        assert_eq!(counts(&writer).iter().sum::<usize>(), written);
        let last = writer.nb_parts() - 1;
        assert!(writer.parts()[..last].iter().all(|part| part.is_closed()));
    }
}

#[test]
fn writes_in_turn_equal_one_write_of_all_items() {
    let texts = ["alpha", "be", "gamma gamma", "d", "epsilon", "zeta zeta zeta", "eta"];
    let all = |from: usize, to: usize| -> Vec<Item> {
        (from..to).map(|i| item(texts[i], &format!("{{\"i\":{}}}", i))).collect()
    };
    let mut turns = Writer::new("en", Some(12));
    turns.write(all(0, 2));
    turns.write(all(2, 3));
    turns.write(all(3, 7));
    let mut once = Writer::new("en", Some(12));
    once.write(all(0, 7));
    assert_eq!(turns.nb_parts(), once.nb_parts());
    for (a, b) in turns.parts().iter().zip(once.parts().iter()) {
        assert_eq!(a.content(), b.content());
        assert_eq!(a.meta(), b.meta());
        assert_eq!(a.nb_items(), b.nb_items());
        assert_eq!(a.is_closed(), b.is_closed());
    }
    assert_eq!(counts(&once).iter().sum::<usize>(), 7);
}

#[test]
fn content_and_metadata_stay_paired() {
    let mut writer = Writer::new("en", Some(16));
    writer.write((0..9).map(|i| item(&format!("line {}", i), &i.to_string())).collect());
    writer.close_meta();
    let mut next = 0;
    for part in writer.parts().iter() {
        let lines: Vec<&str> = part.content().lines().collect();
        let records: Vec<u64> = serde_json::from_str(part.meta()).unwrap();
        assert_eq!(lines.len(), part.nb_items());
        assert_eq!(records.len(), part.nb_items());
        for (line, record) in lines.iter().zip(records.iter()) {
            assert_eq!(*record, next);
            assert_eq!(*line, format!("line {}", next));
            next += 1;
        }
    }
    assert_eq!(next, 9);
}

#[test]
fn write_single_writes_one_item() {
    let mut writer = Writer::new("it", Some(100));
    writer.write_single(&item("uno", "{}"));
    assert_eq!(writer.lang(), "it");
    assert_eq!(writer.part_size_bytes(), Some(100));
    assert_eq!(counts(&writer), vec![1]);
    assert_eq!(writer.parts()[0].content(), "uno\n");
}
