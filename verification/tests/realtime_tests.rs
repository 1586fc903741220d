use analysis_backend::realtime::{
    clear_data_buffer, determine_quality, get_buffer_size, process_generic_data, process_telegram_message,
    process_text_data, ComplexityCounts, DataBuffer,
};

#[test]
fn test_complexity_calculation() {
    let result = process_telegram_message("hello world test");
    match result.measure {
        ComplexityCounts::Message { bytes, words, different } => {
            assert!(bytes > 0 && words > 0 && different > 0);
            assert_eq!((bytes, words, different), (14, 3, 3));
        }
        other => panic!("counted as {:?}", other),
    }
}

#[test]
fn messages_are_cleaned_before_they_are_counted() {
    let result = process_telegram_message("Hello, HELLO! hello... world? -- ");
    assert_eq!(result.status, "processed");
    assert_eq!(result.word_count, 5);
    assert_eq!(result.processing_notes, ["NLP processing completed"]);
    // "hello" three times, "world", and an empty word for "--"
    assert_eq!(result.measure, ComplexityCounts::Message { bytes: 20, words: 5, different: 3 });
    let empty = process_telegram_message("   ");
    assert_eq!(empty.word_count, 0);
    assert_eq!(empty.measure, ComplexityCounts::Message { bytes: 0, words: 0, different: 0 });
}

#[test]
fn texts_are_counted() {
    let result = process_text_data("Hello world! This is a test message.");
    assert_eq!(result.status, "processed");
    assert_eq!(result.word_count, 7);
    assert_eq!(
        result.processing_notes,
        ["Characters: 36", "Words: 7", "Sentences: 3", "Text analysis completed"]
    );
    assert_eq!(result.measure, ComplexityCounts::Text { characters: 36, words: 7, sentences: 3 });
    let empty = process_text_data("");
    assert_eq!(empty.processing_notes[..3], ["Characters: 0", "Words: 0", "Sentences: 1"]);
}

#[test]
fn other_data_is_measured_in_bytes() {
    let result = process_generic_data("héllo");
    assert_eq!(result.status, "processed");
    assert_eq!(result.word_count, 6);
    assert_eq!(result.processing_notes, ["Generic processing completed"]);
    assert_eq!(result.measure, ComplexityCounts::Generic { length: 6 });
}

#[test]
fn quality_by_bytes_for_each_millisecond() {
    assert_eq!(determine_quality(0, 1_000_000), "poor");
    assert_eq!(determine_quality(1, 1001), "excellent");
    assert_eq!(determine_quality(1, 1000), "good");
    assert_eq!(determine_quality(2, 1001), "good");
    assert_eq!(determine_quality(2, 1000), "fair");
    assert_eq!(determine_quality(2, 201), "fair");
    assert_eq!(determine_quality(2, 200), "poor");
    assert_eq!(determine_quality(u128::MAX, usize::MAX), "poor");
    assert_eq!(determine_quality(1, 0), "poor");
}

#[test]
fn the_buffer_keeps_the_last_thousand() {
    let mut buffer: DataBuffer<f64> = DataBuffer::new();
    assert_eq!(get_buffer_size(&buffer), 0);
    for i in 0..1003 {
        buffer.push(i as f64);
    }
    assert_eq!(get_buffer_size(&buffer), 1000);
    assert_eq!(buffer.len(), 1000);
    assert_eq!(*buffer.item_at(0), 3.0);
    assert_eq!(*buffer.item_at(999), 1002.0);
    clear_data_buffer(&mut buffer);
    assert_eq!(get_buffer_size(&buffer), 0);
    buffer.push(1.5);
    buffer.clear();
    assert_eq!(buffer.len(), 0);
}
