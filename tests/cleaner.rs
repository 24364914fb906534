use subclean::clean_document;
use subclean::encoding::decode_input;
use subclean::reconstruct::{clean_lines, clean_text, decimal_text, index_line, OutputCue, Reconstructor};
use subclean::rules::{classify, standard_trash_patterns, timestamp_match, trash_match, Classification, RuleTable, TIMESTAMP_PATTERN};
use subclean::text::split_lines;

fn table() -> RuleTable {
    RuleTable::standard().expect("bundled patterns compile")
}

fn small_table() -> RuleTable {
    let trash = vec!["Subtitles by", "www\\."];
    RuleTable::new(TIMESTAMP_PATTERN, &trash).expect("patterns compile")
}

#[test]
fn standard_table_compiles() {
    assert!(RuleTable::standard().is_some());
    assert_eq!(standard_trash_patterns().len(), 29);
}

#[test]
fn invalid_pattern_is_rejected() {
    let trash = vec!["fine", "(unclosed"];
    assert!(RuleTable::new(TIMESTAMP_PATTERN, &trash).is_none());
    assert!(RuleTable::new("[", &vec![]).is_none());
}

#[test]
fn timing_line_is_classified_timestamp() {
    let t = table();
    let line = "00:00:01,000 --> 00:00:04,000";
    assert!(timestamp_match(&t, line));
    assert_eq!(classify(&t, line), Classification::Timestamp);
}

#[test]
fn timing_line_with_attribution_text_stays_timestamp() {
    let t = table();
    let line = "00:00:01,000 --> 00:00:04,000 www.site.tv";
    assert!(trash_match(&t, line));
    assert_eq!(classify(&t, line), Classification::Timestamp);
}

#[test]
fn credit_lines_are_trash() {
    let t = table();
    assert!(trash_match(&t, "Downloaded from YIFY"));
    assert!(trash_match(&t, "Visit http://example.com"));
    assert!(trash_match(&t, "subtitulado por:alguien"));
    assert_eq!(classify(&t, "Sync and corrections by argenteam"), Classification::Trash);
}

#[test]
fn dialogue_is_content() {
    let t = table();
    assert!(!trash_match(&t, "Where are you going?"));
    assert_eq!(classify(&t, "Where are you going?"), Classification::Content);
}

#[test]
fn case_of_patterns_is_kept() {
    let t = table();
    assert!(trash_match(&t, "English Subtitles"));
    assert!(!trash_match(&t, "english subtitles"));
}

#[test]
fn index_lines_are_numeric_runs() {
    assert!(index_line("12"));
    assert!(index_line("١٢"));
    assert!(!index_line(""));
    assert!(!index_line("12a"));
    assert!(!index_line(" 12"));
}

#[test]
fn decimal_text_writes_digits() {
    assert_eq!(decimal_text(0), "0");
    assert_eq!(decimal_text(7), "7");
    assert_eq!(decimal_text(10), "10");
    assert_eq!(decimal_text(4096), "4096");
}

#[test]
fn lines_split_on_line_feed_and_drop_carriage_return() {
    let lines = split_lines("a\r\nb\n\nc");
    assert_eq!(lines, vec!["a".to_string(), "b".to_string(), "".to_string(), "c".to_string()]);
    let lines = split_lines("x\r\r\ny\r");
    assert_eq!(lines, vec!["x\r".to_string(), "y\r".to_string()]);
    assert!(split_lines("").is_empty());
    assert_eq!(split_lines("\n"), vec!["".to_string()]);
}

#[test]
fn clean_cues_are_all_kept_and_renumbered() {
    let t = table();
    let input = "5\n00:00:01,000 --> 00:00:02,000\nHello.\n\n9\n00:00:03,000 --> 00:00:04,000\nGoodbye.\nSee you.\n\n";
    let out = clean_text(&t, input);
    assert_eq!(
        out,
        "1\n00:00:01,000 --> 00:00:02,000\nHello.\n\n2\n00:00:03,000 --> 00:00:04,000\nGoodbye.\nSee you.\n\n"
    );
}

#[test]
fn poisoned_cue_is_dropped_whole() {
    let t = table();
    let input = "1\n00:00:01,000 --> 00:00:02,000\nHello.\n\n2\n00:00:03,000 --> 00:00:04,000\nKeep me?\nDownloaded from YIFY\nAfter.\n\n3\n00:00:05,000 --> 00:00:06,000\nBye.\n\n";
    let out = clean_text(&t, input);
    assert_eq!(
        out,
        "1\n00:00:01,000 --> 00:00:02,000\nHello.\n\n2\n00:00:05,000 --> 00:00:06,000\nBye.\n\n"
    );
}

#[test]
fn numeric_lines_never_reach_a_body() {
    let t = table();
    let input = "1\n00:00:01,000 --> 00:00:02,000\n42\nHello.\n2024\n\n";
    let out = clean_text(&t, input);
    assert_eq!(out, "1\n00:00:01,000 --> 00:00:02,000\nHello.\n\n");
}

#[test]
fn cue_of_index_lines_only_is_not_emitted() {
    let t = table();
    let out = clean_text(&t, "1\n2\n\n3\nText.\n\n");
    assert_eq!(out, "1\nText.\n\n");
}

#[test]
fn indices_are_contiguous_from_one() {
    let t = table();
    let lines: Vec<String> = split_lines("7\nA.\n\n8\nYIFY\n\n9\nB.\n\n\n\n10\nC.\n\n");
    let cues: Vec<OutputCue> = clean_lines(&t, &lines);
    assert_eq!(cues.len(), 3);
    for (k, cue) in cues.iter().enumerate() {
        assert_eq!(cue.index, k + 1);
    }
    assert_eq!(cues[0].body, "A.\n");
    assert_eq!(cues[1].body, "B.\n");
    assert_eq!(cues[2].body, "C.\n");
    assert_eq!(cues[2].to_text(), "3\nC.\n\n");
}

#[test]
fn cleaning_twice_changes_nothing() {
    let t = table();
    let input = "3\n00:00:01,000 --> 00:00:02,000\nHello.\n\n4\nDownloaded from YIFY\n\n8\n00:00:05,000 --> 00:00:06,000\nBye.\nNow.\n\n";
    let once = clean_text(&t, input);
    let twice = clean_text(&t, &once);
    assert_eq!(once, twice);
}

#[test]
fn trailing_cue_without_blank_line_is_dropped() {
    let t = table();
    let input = "1\n00:00:01,000 --> 00:00:02,000\nHello.\n\n2\n00:00:03,000 --> 00:00:04,000\nLast words.\n";
    let out = clean_text(&t, input);
    assert_eq!(out, "1\n00:00:01,000 --> 00:00:02,000\nHello.\n\n");
    let out = clean_text(&t, "1\nOnly.");
    assert_eq!(out, "");
}

#[test]
fn attribution_cue_is_removed_from_two_cue_input() {
    let t = small_table();
    let input = "1\n00:00:01,000 --> 00:00:02,000\nHello there.\n\n2\n00:00:03,000 --> 00:00:04,000\nSubtitles by SomeTeam:\n\n";
    let out = clean_text(&t, input);
    assert_eq!(out, "1\n00:00:01,000 --> 00:00:02,000\nHello there.\n\n");
}

#[test]
fn empty_input_gives_empty_output() {
    let t = table();
    assert_eq!(clean_text(&t, ""), "");
    assert_eq!(clean_text(&t, "\n\n\n"), "");
}

#[test]
fn reconstructor_states() {
    let t = table();
    let mut r = Reconstructor::new();
    assert_eq!(r.next_index(), 1);
    assert!(r.feed(&t, "12").is_none());
    assert!(r.feed(&t, "").is_none());
    assert!(r.feed(&t, "Hello.").is_none());
    assert!(r.feed(&t, "Downloaded from YIFY").is_none());
    assert!(r.is_suppressing());
    assert!(r.feed(&t, "More.").is_none());
    assert!(r.feed(&t, "").is_none());
    assert!(!r.is_suppressing());
    assert!(r.feed(&t, "Kept.").is_none());
    let cue = r.feed(&t, "").expect("flush");
    assert_eq!(cue.index, 1);
    assert_eq!(cue.body, "Kept.\n");
    assert_eq!(r.next_index(), 2);
}

#[test]
fn latin1_bytes_decode_to_accented_text() {
    let mut data: Vec<u8> = b"1\n00:00:01,000 --> 00:00:02,000\nUn caf".to_vec();
    data.push(0xE9);
    data.extend_from_slice(b" au lait, s'il vous pla");
    data.push(0xEE);
    data.extend_from_slice(b"t.\n\n");
    let decoded = decode_input(&data);
    assert!(decoded.text.contains("café"));
    let doc = clean_document(&table(), &data);
    assert!(doc.text.contains("café"));
    assert!(!doc.encoding.is_empty());
}

#[test]
fn utf8_bytes_decode_unchanged() {
    let data = "1\nDéjà vu.\n\n".as_bytes().to_vec();
    let doc = clean_document(&table(), &data);
    assert_eq!(doc.encoding, "UTF-8");
    assert_eq!(doc.text, "1\nDéjà vu.\n\n");
}


#[test]
fn poisoned_first_cue_is_dropped_and_next_renumbered() {
    let t = table();
    let input = "1\n00:00:01,000 --> 00:00:02,000\nHello there\nDownload at https://example.com\n\n2\n00:00:03,000 --> 00:00:04,000\nBye\n\n";
    assert_eq!(clean_text(&t, input), "1\n00:00:03,000 --> 00:00:04,000\nBye\n\n");
}

#[test]
fn unterminated_last_cue_is_dropped() {
    let t = table();
    let input = "1\n00:00:01,000 --> 00:00:02,000\nHello\n\n2\n00:00:03,000 --> 00:00:04,000\nBye\n";
    assert_eq!(clean_text(&t, input), "1\n00:00:01,000 --> 00:00:02,000\nHello\n\n");
}

#[test]
fn timing_line_with_trash_marks_is_kept() {
    let t = table();
    let input = "1\n00:00:01,000 --> 00:00:02,000 >>\nHi\n\n";
    assert_eq!(clean_text(&t, input), input);
}

#[test]
fn bundled_patterns_keep_their_case_and_anchors() {
    let t = table();
    assert!(trash_match(&t, "Download at https://example.com"));
    assert!(!trash_match(&t, "Hello there"));
    assert!(trash_match(&t, "YIFY"));
    assert!(!trash_match(&t, "yify"));
    assert!(trash_match(&t, "© 2020"));
    assert!(!trash_match(&t, "cafÃ©"));
    assert!(trash_match(&t, "presents:"));
    assert!(!trash_match(&t, "He presents: X"));
}

#[test]
fn leading_and_repeated_blank_lines_keep_every_cue() {
    let t = table();
    let input = "\n\n1\nA.\n\n\n\n2\nB.\n\n";
    assert_eq!(clean_text(&t, input), "1\nA.\n\n2\nB.\n\n");
}

#[test]
fn short_latin1_cue_keeps_its_accent() {
    let mut data: Vec<u8> = b"1\n00:00:01,000 --> 00:00:02,000\ncaf".to_vec();
    data.push(0xE9);
    data.extend_from_slice(b"\n\n");
    let doc = clean_document(&table(), &data);
    assert_eq!(doc.text, "1\n00:00:01,000 --> 00:00:02,000\ncafé\n\n");
}
