use analysis_backend::numeric::is_numeric;

fn check(text: &str) -> bool {
    let chars: Vec<char> = text.chars().collect();
    is_numeric(&chars)
}

#[test]
fn numbers_are_what_the_standard_parser_takes() {
    let samples = [
        "", " ", "0", "1", "-1", "+1", "1.", ".1", ".", "1.5", "-.5", "+.5e3", "1e5", "1E5", "1e", "e5",
        "1e+5", "1e-5", "1e+", "1e5.0", "1.2.3", "--1", "+-1", "inf", "INF", "Infinity", "-infinity",
        "+inf", "infinit", "nan", "NaN", "-nan", "+NAN", "nana", "1_000", "0x10", "1 ", " 1", "1,2",
        "abc", "12a", "a12", "١٢", "1e1e1", "00012", "1.0e10", "9999999999999999999999999999",
        "1e99999", ".e5", "5.e5", "+", "-", "e", "E1", "in", "infinityy", "i", "n", "1f", "1.5f32",
        "٣", "1e٣", "NaNx", "−1", "1\u{0}", "\t1", "1\n", "0.0", "-0", "+0.", "123456789.987654321",
    ];
    for sample in samples {
        assert_eq!(check(sample), sample.parse::<f64>().is_ok(), "disagreement on {:?}", sample);
    }
}

#[test]
fn every_short_text_over_the_alphabet() {
    let alphabet = ['0', '9', '+', '-', '.', 'e', 'E', 'i', 'n', 'f', 'a', ' '];
    let mut texts: Vec<String> = vec![String::new()];
    for _ in 0..4 {
        let mut next = Vec::new();
        for text in &texts {
            for c in alphabet {
                let mut longer = text.clone();
                longer.push(c);
                next.push(longer);
            }
        }
        for text in &next {
            assert_eq!(check(text), text.parse::<f64>().is_ok(), "disagreement on {:?}", text);
        }
        texts = next;
    }
}
