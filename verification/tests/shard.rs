use std::path::PathBuf;
use ungoliant::lang::{lookup, position, LANG};
use ungoliant::langfiles::LangFiles;
use ungoliant::pipeline::{Action, Event, Phase, RayonShard};
use ungoliant::record::{candidate_lines, lines, Header, RawRecord};
use ungoliant::shard::{
    classify_all, flush, process_record, select_classified, Prediction, ShardContent,
};

fn record(body: &[u8]) -> RawRecord {
    RawRecord { headers: Vec::new(), body: body.to_vec() }
}

fn says(label: &str) -> Option<Vec<Prediction>> {
    Some(vec![Prediction { label: label.to_string() }])
}

fn pipeline(nb_shards: Option<usize>, nb_records: Option<usize>) -> RayonShard {
    RayonShard::new(PathBuf::from("src"), PathBuf::from("dst"), nb_shards, nb_records)
}

fn strings(lines: &[&str]) -> Vec<String> {
    lines.iter().map(|line| line.to_string()).collect()
}

#[test]
fn lines_are_split_at_line_feeds() {
    assert_eq!(lines("a\nb\nc"), strings(&["a", "b", "c"]));
    assert_eq!(lines("a\nb\n"), strings(&["a", "b"]));
    assert_eq!(lines(""), Vec::<String>::new());
    assert_eq!(lines("\n"), strings(&[""]));
    assert_eq!(lines("a\n\nb"), strings(&["a", "", "b"]));
    assert_eq!(lines("no line feed"), strings(&["no line feed"]));
}

#[test]
fn a_carriage_return_before_a_line_feed_belongs_to_the_ending() {
    assert_eq!(lines("a\r\nb\r\n"), strings(&["a", "b"]));
    assert_eq!(lines("a\rb\n"), strings(&["a\rb"]));
    assert_eq!(lines("a\r\r\n"), strings(&["a\r"]));
    assert_eq!(lines("a\r"), strings(&["a\r"]));
    assert_eq!(lines("\r\n"), strings(&[""]));
}

#[test]
fn lines_agree_with_the_standard_library() {
    for text in ["", "x", "x\n", "\n\n", "a\r\nb", "é\nü\r\n\r\n", "\r", "a\n\rb", "tab\there\n"] {
        let expected: Vec<String> = text.lines().map(|line| line.to_string()).collect();
        assert_eq!(lines(text), expected, "{:?}", text);
    }
}

#[test]
fn candidates_have_more_than_a_hundred_characters() {
    let short = "a".repeat(100);
    let long = "b".repeat(101);
    let body = format!("{}\n{}\nshort\n", short, long);
    assert_eq!(candidate_lines(body.into_bytes()), Some(vec![long]));
}

#[test]
fn candidates_are_counted_in_characters() {
    // 60 characters that take 120 bytes
    let wide = "é".repeat(60);
    assert_eq!(wide.len(), 120);
    assert_eq!(candidate_lines(wide.clone().into_bytes()), Some(Vec::new()));
    let wider = "é".repeat(101);
    assert_eq!(candidate_lines(wider.clone().into_bytes()), Some(vec![wider]));
}

#[test]
fn a_body_that_is_not_text_has_no_candidates() {
    assert_eq!(candidate_lines(vec![0xff, 0xfe, 0x41]), None);
    assert_eq!(candidate_lines(vec![0xc3]), None);
    assert_eq!(candidate_lines(Vec::new()), Some(Vec::new()));
}

#[test]
fn supported_languages_are_found_by_their_code() {
    assert_eq!(lookup("fr"), Some("fr"));
    assert_eq!(lookup("zh"), Some("zh"));
    assert_eq!(lookup("af"), Some("af"));
    assert_eq!(lookup("klingon"), None);
    assert_eq!(lookup(""), None);
    assert_eq!(position("af"), Some(0));
    assert_eq!(position("zh"), Some(175));
    assert_eq!(position("xx"), None);
    for (index, code) in LANG.iter().enumerate() {
        assert_eq!(position(code), Some(index));
    }
}

#[test]
fn lines_without_a_supported_language_are_left_out() {
    let lines = strings(&["un", "two", "tres", "vier", "cinque"]);
    let predictions = vec![says("fr"), None, says("tlh"), Some(Vec::new()), says("it")];
    let kept = select_classified(lines, predictions);
    assert_eq!(kept, vec![("un".to_string(), "fr"), ("cinque".to_string(), "it")]);
}

#[test]
fn only_the_first_prediction_counts() {
    let predictions = vec![Some(vec![
        Prediction { label: "xx".to_string() },
        Prediction { label: "fr".to_string() },
    ])];
    assert_eq!(select_classified(strings(&["a"]), predictions), Vec::new());
    let predictions = vec![Some(vec![
        Prediction { label: "de".to_string() },
        Prediction { label: "fr".to_string() },
    ])];
    assert_eq!(select_classified(strings(&["a"]), predictions), vec![("a".to_string(), "de")]);
}

#[test]
fn lines_and_predictions_go_by_pairs() {
    let kept = select_classified(strings(&["a", "b", "c"]), vec![says("en")]);
    assert_eq!(kept, vec![("a".to_string(), "en")]);
    let kept = select_classified(strings(&["a"]), vec![says("en"), says("fr")]);
    assert_eq!(kept, vec![("a".to_string(), "en")]);
}

#[test]
fn classify_all_asks_about_every_line_in_order() {
    let lines = strings(&["x", "yy", "zzz"]);
    let answers = classify_all(&lines, &|line: &String| {
        Some(vec![Prediction { label: line.len().to_string() }])
    });
    let labels: Vec<String> =
        answers.into_iter().map(|answer| answer.unwrap().remove(0).label).collect();
    assert_eq!(labels, strings(&["1", "2", "3"]));
}

#[test]
fn a_record_keeps_its_long_lines_with_their_language() {
    let long_fr = format!("{} voici une longue ligne", "a".repeat(120));
    let long_en = format!("{} here is a long line", "b".repeat(120));
    let long_unknown = "c".repeat(150);
    let body = format!("{}\nshort\n{}\r\n{}\n", long_fr, long_en, long_unknown);
    let classify = |line: &String| {
        if line.ends_with("ligne") {
            says("fr")
        } else if line.ends_with("line") {
            says("en")
        } else {
            None
        }
    };
    let kept = process_record(record(body.as_bytes()), &classify).unwrap();
    assert_eq!(kept, vec![(long_fr, "fr"), (long_en, "en")]);
}

#[test]
fn a_record_that_is_not_text_is_skipped() {
    let classify = |_: &String| says("fr");
    let mut body = "a".repeat(200).into_bytes();
    body.push(0x80);
    assert_eq!(process_record(record(&body), &classify), None);
}

#[test]
fn short_lines_are_never_classified() {
    let asked = std::cell::Cell::new(0);
    let classify = |_: &String| {
        asked.set(asked.get() + 1);
        says("fr")
    };
    let body = format!("short\n{}\nalso short\n", "x".repeat(101));
    let kept = process_record(record(body.as_bytes()), &classify).unwrap();
    assert_eq!(kept.len(), 1);
    assert_eq!(asked.get(), 1);
}

#[test]
fn content_keeps_lines_by_language_in_the_order_they_came() {
    let mut content = ShardContent::new();
    content.insert("un".to_string(), "fr");
    content.insert("one".to_string(), "en");
    content.insert("deux".to_string(), "fr");
    content.insert("eins".to_string(), "de");
    content.insert("trois".to_string(), "fr");
    content.insert("two".to_string(), "en");
    assert_eq!(content.get("fr"), Some(&strings(&["un", "deux", "trois"])));
    assert_eq!(content.get("en"), Some(&strings(&["one", "two"])));
    assert_eq!(content.get("de"), Some(&strings(&["eins"])));
    assert_eq!(content.get("it"), None);
    let langs: Vec<&str> = content.inner().iter().map(|entry| entry.0).collect();
    assert_eq!(langs, vec!["fr", "en", "de"]);
}

#[test]
fn an_insert_leaves_other_languages_alone() {
    let mut content = ShardContent::new();
    content.insert("a".to_string(), "fr");
    content.insert("b".to_string(), "en");
    let en_before = content.get("en").cloned();
    content.insert("c".to_string(), "fr");
    assert_eq!(content.get("en").cloned(), en_before);
    assert_eq!(content.get("fr"), Some(&strings(&["a", "c"])));
}

#[test]
fn extend_inserts_every_pair() {
    let mut content = ShardContent::new();
    content.extend(vec![("a".to_string(), "fr"), ("b".to_string(), "en")]);
    content.extend(vec![("c".to_string(), "en")]);
    assert_eq!(content.get("fr"), Some(&strings(&["a"])));
    assert_eq!(content.get("en"), Some(&strings(&["b", "c"])));
}

#[test]
fn quotas_cap_what_is_worked_through() {
    let free = pipeline(None, None);
    assert_eq!(free.shard_quota(7), 7);
    assert_eq!(free.record_quota(0), 0);
    let capped = pipeline(Some(3), Some(2));
    assert_eq!(capped.shard_quota(7), 3);
    assert_eq!(capped.shard_quota(3), 3);
    assert_eq!(capped.shard_quota(2), 2);
    assert_eq!(capped.record_quota(5), 2);
    assert_eq!(capped.record_quota(1), 1);
    assert_eq!(capped.src(), &PathBuf::from("src"));
    assert_eq!(capped.dst(), &PathBuf::from("dst"));
}

#[test]
fn a_shard_goes_through_its_records_up_to_the_limit() {
    let line = |c: &str, lang: &str| format!("{} {}", c.repeat(120), lang);
    let classify = |line: &String| says(line.rsplit(' ').next().unwrap());
    let records = vec![
        Some(record(line("a", "fr").as_bytes())),
        None,
        Some(record(&[0xff])),
        Some(record(format!("{}\n{}", line("b", "en"), line("c", "fr")).as_bytes())),
        Some(record(line("d", "de").as_bytes())),
    ];
    let content = pipeline(None, Some(4)).process_shard(records, &classify);
    assert_eq!(content.get("fr"), Some(&vec![line("a", "fr"), line("c", "fr")]));
    assert_eq!(content.get("en"), Some(&vec![line("b", "en")]));
    assert_eq!(content.get("de"), None);
}

#[test]
fn one_long_line_and_one_short_line_leave_one_line_for_one_language() {
    let long = format!("{} une ligne de cent vingt caractères", "z".repeat(85));
    assert_eq!(long.chars().count(), 120);
    let body = format!("{}\nshort\n", long);
    assert_eq!("short".chars().count(), 5);
    let classify = |_: &String| says("fr");
    let content = pipeline(None, None)
        .process_shard(vec![Some(record(body.as_bytes()))], &classify);
    assert_eq!(content.inner().len(), 1);

    let mut files = LangFiles::new(Some(1 << 20));
    flush(&mut files, &content, "{\"shard\":0}");
    files.close_meta();
    for writer in files.writers().iter() {
        assert_eq!(writer.nb_parts(), 1);
        let part = &writer.parts()[0];
        if writer.lang() == "fr" {
            assert_eq!(part.nb_items(), 1);
            assert_eq!(part.content(), &format!("{}\n", long));
            assert_eq!(part.content().lines().count(), 1);
            assert_eq!(part.meta(), "[{\"shard\":0}]");
        } else {
            assert_eq!(part.nb_items(), 0);
            assert_eq!(part.content(), "");
            assert_eq!(part.meta(), "[]");
        }
    }
}

#[test]
fn a_shard_whose_record_is_not_text_writes_nothing() {
    let classify = |_: &String| says("fr");
    let content = pipeline(None, None).process_shard(vec![Some(record(&[0xc0, 0xaf]))], &classify);
    assert_eq!(content.inner().len(), 0);
    let mut files = LangFiles::new(None);
    flush(&mut files, &content, "{}");
    files.close_meta();
    assert!(files.writers().iter().all(|w| w.nb_parts() == 1 && w.parts()[0].nb_items() == 0));
}

#[test]
fn flush_joins_the_lines_of_a_language_into_one_item() {
    let mut content = ShardContent::new();
    content.insert("un".to_string(), "fr");
    content.insert("one".to_string(), "en");
    content.insert("deux".to_string(), "fr");
    let mut files = LangFiles::new(None);
    flush(&mut files, &content, "{\"shard\":1}");
    flush(&mut files, &content, "{\"shard\":2}");
    let fr = &files.writers()[position("fr").unwrap()];
    assert_eq!(fr.parts()[0].nb_items(), 2);
    assert_eq!(fr.parts()[0].content(), "un\ndeux\nun\ndeux\n");
    assert_eq!(fr.parts()[0].meta(), "[{\"shard\":1},{\"shard\":2},");
    let en = &files.writers()[position("en").unwrap()];
    assert_eq!(en.parts()[0].content(), "one\none\n");
}

#[test]
fn a_run_goes_through_its_phases() {
    let run = pipeline(Some(2), None);
    let (phase, action) = run.step(Phase::Init, Event::Started);
    assert_eq!((phase, action), (Phase::ListShards, Action::ListShards));
    let (phase, action) = run.step(phase, Event::ShardsListed { listed: 5 });
    assert_eq!(phase, Phase::ProcessShards { left: 2 });
    assert_eq!(action, Action::ProcessShards { shards: 2 });
    let (phase, action) = run.step(phase, Event::ShardDone);
    assert_eq!((phase, action), (Phase::ProcessShards { left: 1 }, Action::Wait));
    let (phase, action) = run.step(phase, Event::ShardDone);
    assert_eq!((phase, action), (Phase::FinalizeWriters, Action::FinalizeWriters));
    let (phase, action) = run.step(phase, Event::WritersFinalized);
    assert_eq!((phase, action), (Phase::Done, Action::Stop));
}

#[test]
fn a_run_without_shards_closes_the_writers_at_once() {
    let run = pipeline(None, None);
    let (phase, action) = run.step(Phase::ListShards, Event::ShardsListed { listed: 0 });
    assert_eq!((phase, action), (Phase::FinalizeWriters, Action::FinalizeWriters));
    let run = pipeline(Some(0), None);
    let (phase, action) = run.step(Phase::ListShards, Event::ShardsListed { listed: 9 });
    assert_eq!((phase, action), (Phase::FinalizeWriters, Action::FinalizeWriters));
}

#[test]
fn an_event_out_of_turn_changes_nothing() {
    let run = pipeline(None, None);
    for phase in [
        Phase::Init,
        Phase::ListShards,
        Phase::ProcessShards { left: 3 },
        Phase::FinalizeWriters,
        Phase::Done,
    ] {
        for event in [
            Event::Started,
            Event::ShardsListed { listed: 4 },
            Event::ShardDone,
            Event::WritersFinalized,
        ] {
            let expected = matches!(
                (phase, event),
                (Phase::Init, Event::Started)
                    | (Phase::ListShards, Event::ShardsListed { .. })
                    | (Phase::ProcessShards { .. }, Event::ShardDone)
                    | (Phase::FinalizeWriters, Event::WritersFinalized)
            );
            let (next, action) = run.step(phase, event);
            if !expected {
                assert_eq!((next, action), (phase, Action::Wait));
            } else {
                assert_ne!(next, phase);
            }
        }
    }
}

#[test]
fn the_writers_are_closed_once_in_a_run() {
    let run = pipeline(None, None);
    let events = [
        Event::ShardDone,
        Event::Started,
        Event::Started,
        Event::ShardsListed { listed: 3 },
        Event::WritersFinalized,
        Event::ShardDone,
        Event::ShardDone,
        Event::ShardsListed { listed: 3 },
        Event::ShardDone,
        Event::ShardDone,
        Event::WritersFinalized,
        Event::ShardDone,
        Event::WritersFinalized,
    ];
    let mut phase = Phase::Init;
    let mut closed = 0;
    for event in events {
        let (next, action) = run.step(phase, event);
        if action == Action::FinalizeWriters {
            closed += 1;
        }
        phase = next;
    }
    assert_eq!(phase, Phase::Done);
    assert_eq!(closed, 1);
}

#[test]
fn headers_are_found_by_name() {
    let record = RawRecord {
        headers: vec![
            Header { name: "WARC-Type".to_string(), value: b"conversion".to_vec() },
            Header { name: "WARC-Target-URI".to_string(), value: b"https://a.example/".to_vec() },
            Header { name: "WARC-Target-URI".to_string(), value: b"https://b.example/".to_vec() },
        ],
        body: Vec::new(),
    };
    assert_eq!(record.header("WARC-Target-URI"), Some(&b"https://a.example/".to_vec()));
    assert_eq!(record.header("WARC-Type"), Some(&b"conversion".to_vec()));
    assert_eq!(record.header("warc-type"), None);
    assert_eq!(record.header("Content-Length"), None);
}

#[test]
fn a_shard_hands_over_one_item_for_each_language() {
    let mut content = ShardContent::new();
    content.insert("un".to_string(), "fr");
    content.insert("one".to_string(), "en");
    content.insert("deux".to_string(), "fr");
    content.insert("trois".to_string(), "fr");
    let items = content.items("{\"shard\":7}");
    assert_eq!(items.len(), 2);
    assert_eq!(items[0].0, "fr");
    assert_eq!(items[0].1.text, "un\ndeux\ntrois");
    assert_eq!(items[0].1.metadata, "{\"shard\":7}");
    assert_eq!(items[1].0, "en");
    assert_eq!(items[1].1.text, "one");
    assert_eq!(ShardContent::new().items("{}").len(), 0);
}

#[test]
fn a_run_works_through_its_shards_and_closes_the_writers() {
    let line = |c: &str, lang: &str| format!("{} {}", c.repeat(120), lang);
    let classify = |line: &String| says(line.rsplit(' ').next().unwrap());
    let shards = vec![
        vec![Some(record(line("a", "fr").as_bytes())), Some(record(line("b", "en").as_bytes()))],
        vec![None, Some(record(&[0xff, 0x00]))],
        vec![Some(record(format!("{}\n{}\n", line("c", "fr"), line("d", "fr")).as_bytes()))],
        vec![Some(record(line("e", "de").as_bytes()))],
    ];
    let files = pipeline(Some(3), None).run(shards, &classify);
    for writer in files.writers().iter() {
        assert_eq!(writer.nb_parts(), 1);
        let part = &writer.parts()[0];
        assert!(part.is_closed());
        match writer.lang().as_str() {
            "fr" => {
                assert_eq!(part.nb_items(), 2);
                assert_eq!(
                    part.content(),
                    &format!("{}\n{}\n{}\n", line("a", "fr"), line("c", "fr"), line("d", "fr"))
                );
                assert_eq!(part.meta(), "[{\"shard\":0},{\"shard\":2}]");
            }
            "en" => {
                assert_eq!(part.nb_items(), 1);
                assert_eq!(part.meta(), "[{\"shard\":0}]");
            }
            _ => {
                assert_eq!(part.nb_items(), 0);
                assert_eq!(part.meta(), "[]");
            }
        }
    }
}

#[test]
fn shard_records_hold_the_index_of_the_shard() {
    assert_eq!(ungoliant::pipeline::shard_metadata(0), "{\"shard\":0}");
    assert_eq!(ungoliant::pipeline::shard_metadata(1234567890), "{\"shard\":1234567890}");
    let parsed: serde_json::Value =
        serde_json::from_str(&ungoliant::pipeline::shard_metadata(42)).unwrap();
    assert_eq!(parsed["shard"], 42);
}
