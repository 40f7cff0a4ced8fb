use buckowump::text::{lines, push_decimal, words};

#[test]
fn decimal_of_numbers() {
    let mut s = String::from("n=");
    push_decimal(&mut s, 0);
    assert_eq!(s, "n=0");
    let mut s = String::new();
    push_decimal(&mut s, 10);
    assert_eq!(s, "10");
    let mut s = String::new();
    push_decimal(&mut s, u64::MAX);
    assert_eq!(s, u64::MAX.to_string());
    let mut s = String::new();
    push_decimal(&mut s, 907);
    assert_eq!(s, "907");
}

#[test]
fn lines_match_str_lines() {
    let samples = [
        "",
        "one",
        "one\n",
        "one\ntwo",
        "\n",
        "\n\n",
        "a\r\nb",
        "a\r",
        "a\rb\n\nc \n",
        "Creative Computing Buckopia, New Jrsey\nThe object",
    ];
    for s in samples {
        let expected: Vec<String> = s.lines().map(|l| l.to_string()).collect();
        assert_eq!(lines(s), expected, "lines of {:?}", s);
    }
}

#[test]
fn words_match_split_inclusive() {
    let samples = ["", " ", "a", "a b", "a b ", "  a  b", "You get 10 tries. After"];
    for s in samples {
        let expected: Vec<String> = s.split_inclusive(' ').map(|w| w.to_string()).collect();
        assert_eq!(words(s), expected, "words of {:?}", s);
    }
}
