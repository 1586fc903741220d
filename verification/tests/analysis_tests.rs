use analysis_backend::analysis::{
    analyze_sentiment_advanced, analyze_text, calculate_readability, count_syllables, detect_plagiarism,
    extract_entities, extract_keywords, extract_topics, generate_summary, numeric_fields,
};
use analysis_backend::cache::{generate_text_cache_key, get_cached_text, set_cached_text, Caches};
use analysis_backend::logging::{get_system_health, info, Logger, MetricsCollector};
use analysis_backend::ratio::Ratio;
use analysis_backend::security::{
    check_rate_limit, get_security_events, validate_input, SecurityConfig, SecurityManager,
};

#[test]
fn test_text_analysis() {
    let text = "This is a test message. It contains multiple sentences. Hello world!";
    let result = analyze_text(text, "eng".to_string(), 950);

    assert!(result.char_count > 0);
    assert!(result.word_count > 0);
    assert!(result.sentence_count > 0);
    assert!(!result.language.is_empty());
    assert!(result.language_confidence > 0);
    assert!(!result.sentiment.is_empty());
    assert!(result.sentiment_positive + result.sentiment_negative <= result.word_count);
    assert!(!result.keywords.is_empty());
    assert!(!result.summary.is_empty());
    assert!(!result.topics.is_empty());
    assert!(result.plagiarism_score <= 10);
}

#[test]
fn test_sentiment_analysis() {
    assert_eq!(analyze_sentiment_advanced("I love this! It's amazing!").label, "positive");
    assert_eq!(analyze_sentiment_advanced("I hate this! It's terrible!").label, "negative");
    assert_eq!(analyze_sentiment_advanced("This is normal.").label, "neutral");
}

#[test]
fn test_full_text_analysis_pipeline() {
    let text = "Hello world! This is a test message. I love this amazing system. Contact me at john.doe@example.com or call 123-456-7890.";
    let result = analyze_text(text, "eng".to_string(), 990);

    // Verify all analysis features
    assert!(result.char_count > 0);
    assert!(result.word_count > 0);
    assert!(result.sentence_count > 0);
    assert!(!result.language.is_empty());
    assert!(result.language_confidence > 0);
    assert!(!result.sentiment.is_empty());
    assert!(!result.keywords.is_empty());
    assert!(!result.entities.is_empty());
    assert!(!result.summary.is_empty());
    assert!(!result.topics.is_empty());
    assert!(result.plagiarism_score <= 10);

    // Verify entity extraction
    let has_email = result.entities.iter().any(|e| e.entity_type == "EMAIL");
    let has_phone = result.entities.iter().any(|e| e.entity_type == "PHONE");
    assert!(has_email);
    assert!(has_phone);
}

#[test]
fn test_error_handling() {
    // Test with invalid input
    let empty_result = analyze_text("", "unknown".to_string(), 0);
    assert!(empty_result.char_count == 0);
    assert!(empty_result.word_count == 0);

    // Test with very large input
    let large_text = "test ".repeat(10000);
    let large_result = analyze_text(&large_text, "eng".to_string(), 1000);
    assert!(large_result.char_count > 0);
    assert!(large_result.word_count > 0);

    // Test with invalid numeric data
    assert!(numeric_fields("abc,def,ghi").is_empty());

    // Test cache with invalid keys
    let mut caches: Caches<Vec<f64>> = Caches::new();
    let invalid_cache_result = get_cached_text(&mut caches, "");
    assert!(invalid_cache_result.is_none());
}

#[test]
fn test_end_to_end_workflow() {
    let mut manager = SecurityManager::new(SecurityConfig::default());
    let mut caches: Caches<Vec<f64>> = Caches::new();
    let mut logger = Logger::new();
    let metrics = MetricsCollector::new();

    // Simulate a complete workflow
    let user_input = "This is a great product! I love it. Contact sales@company.com for more info.";

    // 1. Input validation
    let validation_result = validate_input(&mut manager, user_input, "text");
    assert!(validation_result.is_ok());

    // 2. Rate limiting check
    let rate_limit_ok = check_rate_limit(&mut manager, "user_123");
    assert!(rate_limit_ok);

    // 3. Cache check
    let cache_key = generate_text_cache_key(user_input);
    let cached_result = get_cached_text(&mut caches, &cache_key);

    let analysis_result = if let Some(cached) = cached_result {
        // Use cached result
        info(&mut logger, "Using cached result for user_123", "test", "workflow", 1);
        cached
    } else {
        // Perform analysis
        info(&mut logger, "Performing analysis for user_123", "test", "workflow", 2);
        let result = analyze_text(user_input, "eng".to_string(), 900);

        // Cache the result
        let result_text = format!("{:?}", result);
        set_cached_text(&mut caches, &cache_key, result_text.clone());
        result_text
    };

    // 4. Verify result
    assert!(!analysis_result.is_empty());
    assert_eq!(get_cached_text(&mut caches, &cache_key), Some(analysis_result));

    // 6. Check system health
    let health = get_system_health(&metrics);
    assert!(!health.status.is_empty());

    // 7. Get security events
    let security_events = get_security_events(&manager, None, 10);
    assert!(security_events.is_empty());
}

#[test]
fn counts_of_a_text() {
    let result = analyze_text("One. Two!! Three?! Four", "eng".to_string(), 1);
    assert_eq!(result.char_count, 23);
    assert_eq!(result.word_count, 4);
    // runs of sentence ends cut the text into four pieces
    assert_eq!(result.sentence_count, 4);
    // single sentence ends cut it into six
    assert_eq!(result.readability.sentences, 6);
    assert_eq!(result.readability.words, 4);
    assert_eq!(result.language, "eng");
    assert_eq!(result.language_confidence, 1);
    let empty = analyze_text("", "x".to_string(), 0);
    assert_eq!((empty.char_count, empty.word_count, empty.sentence_count), (0, 0, 1));
    assert_eq!(empty.summary, "");
    assert!(empty.keywords.is_empty() && empty.topics.is_empty() && empty.entities.is_empty());
    assert_eq!(analyze_text("héllo", "fra".to_string(), 5).char_count, 5);
}

#[test]
fn moods_by_the_fifth() {
    let mood = |text: &str| {
        let s = analyze_sentiment_advanced(text);
        (s.label, s.positive, s.negative)
    };
    assert_eq!(mood(""), ("neutral".to_string(), 0, 0));
    // 3 good, 2 bad: the lead of one is a fifth of five, and not more
    assert_eq!(mood("good great nice bad sad"), ("neutral".to_string(), 3, 2));
    assert_eq!(mood("good great nice bad"), ("positive".to_string(), 3, 1));
    assert_eq!(mood("good bad sad awful"), ("negative".to_string(), 1, 3));
    assert_eq!(mood("bad sad awful good great"), ("neutral".to_string(), 2, 3));
    assert_eq!(mood("GOOD Happy"), ("positive".to_string(), 2, 0));
    assert_eq!(mood("این خوب است"), ("positive".to_string(), 1, 0));
    assert_eq!(mood("بد"), ("negative".to_string(), 0, 1));
    assert_eq!(mood("goodness badly"), ("neutral".to_string(), 0, 0));
}

#[test]
fn syllables_by_runs_of_vowels() {
    assert_eq!(count_syllables(""), 0);
    assert_eq!(count_syllables("a"), 1);
    assert_eq!(count_syllables("rhythm"), 1);
    assert_eq!(count_syllables("brr"), 1);
    assert_eq!(count_syllables("beautiful"), 3);
    assert_eq!(count_syllables("queue"), 1);
    assert_eq!(count_syllables("Idea"), 2);
    assert_eq!(count_syllables("hello world, EVERYONE"), 2 + 1 + 4);
    let counts = calculate_readability("Hello world. Again");
    assert_eq!((counts.sentences, counts.words, counts.syllables), (2, 3, 5));
    assert_eq!(calculate_readability("").sentences, 1);
}

#[test]
fn entities_in_order() {
    let found = extract_entities(
        "Call 555.123.4567 or 5551234567, mail a.b@c.io, see http://x.y/z and John Smith or Jane Doe.",
    );
    let listed: Vec<(&str, &str, u32)> =
        found.iter().map(|e| (e.name.as_str(), e.entity_type.as_str(), e.confidence)).collect();
    assert_eq!(
        listed,
        [
            ("John Smith", "PERSON", 800),
            ("Jane Doe", "PERSON", 800),
            ("a.b@c.io", "EMAIL", 950),
            ("http://x.y/z", "URL", 900),
            ("555.123.4567", "PHONE", 850),
            ("5551234567", "PHONE", 850),
        ]
    );
    assert!(extract_entities("nothing here").is_empty());
}

#[test]
fn summaries() {
    assert_eq!(generate_summary("One. Two"), "One. Two");
    assert_eq!(generate_summary(""), "");
    assert_eq!(generate_summary("No end"), "No end");
    // three pieces: "a b c", " d e", ""
    assert_eq!(generate_summary("a b c. d e."), "a b c.  d e");
    // the first of the longest comes first, then the first of the rest
    assert_eq!(generate_summary("a. b c! d e? f g"), " b c.  d e");
    assert_eq!(generate_summary("x y z. a. b c d"), "x y z.  b c d");
    assert_eq!(generate_summary("a.b.c"), "a. b");
    assert_eq!(generate_summary(".."), ". ");
}

#[test]
fn keywords_by_frequency() {
    assert_eq!(extract_keywords("cat cat cat dog dog bird"), ["cat", "dog", "bird"]);
    assert_eq!(extract_keywords("The AND and the for with"), Vec::<String>::new());
    assert_eq!(extract_keywords("ab cd"), Vec::<String>::new());
    assert_eq!(extract_keywords("Zebra zebra ZEBRA ox"), ["zebra"]);
    // two letters of two bytes each are longer than two bytes
    assert_eq!(extract_keywords("éé"), ["éé"]);
    let many = extract_keywords("one two three four five six seven one two three four five six one");
    assert_eq!(many.len(), 5);
    assert_eq!(many[0], "one");
    assert!(!many.contains(&"seven".to_string()));
    let mut rest = many[1..].to_vec();
    rest.sort();
    rest.dedup();
    assert_eq!(rest.len(), 4);
    for word in rest {
        assert!(["two", "three", "four", "five", "six"].contains(&word.as_str()));
    }
}

#[test]
fn topics_with_their_share() {
    let topics = extract_topics("alpha beta alpha gamma alpha beta the cat");
    let listed: Vec<(&str, Ratio, Vec<String>)> =
        topics.iter().map(|t| (t.name.as_str(), t.weight, t.keywords.clone())).collect();
    assert_eq!(
        listed,
        [
            ("alpha", Ratio { numerator: 3, denominator: 8 }, vec!["alpha".to_string()]),
            ("beta", Ratio { numerator: 2, denominator: 8 }, vec!["beta".to_string()]),
            ("gamma", Ratio { numerator: 1, denominator: 8 }, vec!["gamma".to_string()]),
        ]
    );
    // case is kept, and three bytes are too short
    let topics = extract_topics("Word word the and cat");
    let mut names: Vec<&str> = topics.iter().map(|t| t.name.as_str()).collect();
    names.sort();
    assert_eq!(names, ["Word", "word"]);
    assert!(extract_topics("").is_empty());
}

#[test]
fn plagiarism_in_tenths() {
    assert_eq!(detect_plagiarism("a thought of my own"), 0);
    assert_eq!(detect_plagiarism("However, this shows it. In Conclusion: nothing"), 3);
    assert_eq!(
        detect_plagiarism(
            "in conclusion as a result it is important this shows according to research shows \
             studies indicate it can be seen in addition furthermore moreover however nevertheless"
        ),
        10
    );
    assert_eq!(detect_plagiarism("howeverhowever"), 1);
    assert_eq!(detect_plagiarism(""), 0);
}

#[test]
fn numbers_of_numeric_data() {
    assert_eq!(numeric_fields("1,2,3,4,5,6,7,8,9,10").len(), 10);
    assert_eq!(numeric_fields("1, abc\t 2.5\n-3e2,,x1, \r7\r "), ["1", "2.5", "-3e2", "7"]);
    assert_eq!(numeric_fields("1,2,3,4,5,6,7,8,9,10,15,20,25,30,35,40,45,50").len(), 18);
    for field in numeric_fields("1e5 .5 +inf nan -0") {
        assert!(field.parse::<f64>().is_ok());
    }
    assert!(numeric_fields("").is_empty());
}
