use scan2bim_converter::percent::parse_percent;
use scan2bim_converter::label::{stage_label, stage_label_from_line};
use scan2bim_converter::pipeline::needs_translation;
use scan2bim_converter::text::{
    capitalize, chars_of, join2, join3, contains, ends_with, is_digit, is_white_space, number,
    owned, same_ignoring_case, signed_number, string_of, to_lower, trim_bounds,
};

#[test]
fn white_space_is_that_of_unicode() {
    for n in 0..=0x10FFFFu32 {
        if let Some(c) = char::from_u32(n) {
            assert_eq!(is_white_space(c), c.is_whitespace(), "{:?}", c);
        }
    }
}

#[test]
fn digits_are_the_ascii_digits() {
    for n in 0..=0x10FFFFu32 {
        if let Some(c) = char::from_u32(n) {
            assert_eq!(is_digit(c), c.is_ascii_digit());
        }
    }
}

#[test]
fn numbers_are_written_in_decimal() {
    for n in [0u64, 7, 9, 10, 99, 100, 1024, 8192, u64::MAX] {
        assert_eq!(number(n), n.to_string());
    }
    for n in [0i32, 1, -1, -10, 255, i32::MIN, i32::MAX] {
        assert_eq!(signed_number(n), n.to_string());
    }
}

#[test]
fn lower_case_is_that_of_ascii() {
    for n in 0..=0x10FFFFu32 {
        if let Some(c) = char::from_u32(n) {
            assert_eq!(to_lower(&vec![c]), vec![c.to_ascii_lowercase()]);
            assert_eq!(capitalize(&vec![c]), c.to_ascii_uppercase().to_string());
        }
    }
}

#[test]
fn strings_and_characters() {
    let v = chars_of("Zähler\u{1F600}");
    assert_eq!(v.len(), 7);
    assert_eq!(string_of(&v, 1, 4), "ähl");
    assert_eq!(owned("abc"), "abc");
    assert_eq!(join2("ab", "cd"), "abcd");
    assert_eq!(join3("ab", "", "cd"), "abcd");
}

#[test]
fn searching() {
    assert!(contains(&chars_of("abcabd"), &chars_of("abd")));
    assert!(!contains(&chars_of("abcab"), &chars_of("abd")));
    assert!(contains(&chars_of("abc"), &chars_of("")));
    assert!(!contains(&chars_of(""), &chars_of("a")));
    assert!(ends_with(&chars_of("scan.las"), &chars_of(".las")));
    assert!(!ends_with(&chars_of("las"), &chars_of(".las")));
    assert!(same_ignoring_case("PDAL", "pdal"));
    assert!(!same_ignoring_case("PDAL2", "pdal"));
    let v = chars_of("\u{a0} a b \t");
    assert_eq!(trim_bounds(&v, 0, v.len()), (2, 5));
    let v = chars_of("   ");
    let (lo, hi) = trim_bounds(&v, 0, v.len());
    assert_eq!(lo, hi);
}

fn percent(line: &str) -> Option<f64> {
    parse_percent(line).map(|t| t.parse::<f64>().unwrap())
}

/// The announcement of a line, found with the standard library's strings and
/// doubles.
fn percent_by_doubles(line: &str) -> Option<f64> {
    let l = line.trim();
    let pct_pos = l.find('%')?;
    let before: String = l[..pct_pos]
        .chars()
        .rev()
        .take_while(|c| c.is_ascii_digit() || *c == '.' || *c == ',' || c.is_whitespace())
        .collect::<String>()
        .chars()
        .rev()
        .collect();
    before
        .trim()
        .replace(',', ".")
        .parse::<f64>()
        .ok()
        .filter(|v| (0.0..=100.0).contains(v))
}

#[test]
fn percentages_are_read_from_lines() {
    assert_eq!(parse_percent("[ 42,5%] INDEXING"), Some("42.5".to_string()));
    assert_eq!(parse_percent("[7%, 1s]"), Some("7".to_string()));
    assert_eq!(parse_percent("100 %"), Some("100".to_string()));
    assert_eq!(parse_percent("progress: .5%"), Some(".5".to_string()));
    assert_eq!(parse_percent("5.%"), Some("5.".to_string()));
    assert_eq!(parse_percent("no percentage"), None);
    assert_eq!(parse_percent("%"), None);
    assert_eq!(parse_percent(".%"), None);
    assert_eq!(parse_percent("1.2.3%"), None);
    assert_eq!(parse_percent("1 2%"), None);
    assert_eq!(parse_percent("101%"), None);
    assert_eq!(parse_percent("100.1%"), None);
    assert_eq!(parse_percent("-5%"), Some("5".to_string()));
    assert_eq!(parse_percent("x% 5%"), None);
    assert_eq!(parse_percent("5% 6%"), Some("5".to_string()));
}

#[test]
fn percentages_agree_with_doubles() {
    let lines = [
        "0%", "00012.50%", "99.999999999999999999999%", "100.000000000000001%",
        "100.00000000000000710542735760100185871124267578125%",
        "100.000000000000007105427357601001858711242675781250000%",
        "100.00000000000000710542735760100185871124267578126%",
        "100.000000000000007105427357601001858711242675781250000000001%",
        "100.00000000000000710542735760100185871124267578124999999%",
        "100.0000000000000072%", "100.0000000000000071%", "100.00000000000001421%",
        "99999999999999999999999999999%", "000000000000000000000000000000100%",
        "1000%", "0100.0%", "100.%", "100,0%", "a\u{3000}12\u{a0}%", "12\u{2003}.%", "1,2,%", "",
        "   %", "\u{85}3%x", "3%%", "12.3.%", "..%", "5\u{b2}%", "\u{0663}%", "1e2%", "inf%",
        "nan%", "+5%", "5 ,%", "50,%", "5 %%", "99.9999999999999999%", "100.0000000000000070%",
    ];
    for line in lines {
        assert_eq!(percent(line), percent_by_doubles(line), "{:?}", line);
    }
    for whole in 0..=130u32 {
        for thousandths in (0..1000u32).step_by(37) {
            let line = format!("[{}.{:03}%]", whole, thousandths);
            assert_eq!(percent(&line), percent_by_doubles(&line), "{:?}", line);
        }
    }
}

#[test]
fn white_space_and_the_rest_of_a_line_do_not_matter() {
    assert_eq!(parse_percent("  \u{a0} 12% \t"), parse_percent("12%"));
    assert_eq!(parse_percent("12% of 50%"), parse_percent("12%"));
    assert_eq!(parse_percent("12,5%"), parse_percent("12.5%"));
}

#[test]
fn labels_are_read_from_lines() {
    let label = |line: &str| stage_label_from_line(line);
    assert_eq!(label("[50%] INDEXING"), Some("Indexing".to_string()));
    assert_eq!(label("Sampling nodes"), Some("Sampling".to_string()));
    assert_eq!(label("now wRiTiNg"), Some("Writing".to_string()));
    assert_eq!(label("finalizing"), Some("Finalizing".to_string()));
    assert_eq!(label("COUNTING"), Some("Counting".to_string()));
    assert_eq!(label("chunking"), Some("Chunking".to_string()));
    assert_eq!(label("threading"), Some("Reading".to_string()));
    assert_eq!(label("reading while indexing"), Some("Indexing".to_string()));
    assert_eq!(label("index ing"), None);
    assert_eq!(label(""), None);
    assert_eq!(stage_label("chunking"), "Chunking");
    assert_eq!(stage_label("hello"), "Building octree");
}

#[test]
fn e57_inputs_are_told_by_their_ending() {
    assert!(needs_translation("scan.e57"));
    assert!(needs_translation("C:\\Scans\\SCAN.E57"));
    assert!(needs_translation("/tmp/J\u{e9}r\u{f4}me/\u{3a3}.E57"));
    assert!(needs_translation(".e57"));
    assert!(!needs_translation("e57"));
    assert!(!needs_translation("scan.e57.las"));
    assert!(!needs_translation("scan.las"));
    assert!(!needs_translation(""));
}

#[test]
fn no_other_letters_become_those_of_the_ending() {
    for n in 0..=0x10FFFFu32 {
        if let Some(c) = char::from_u32(n) {
            let by_unicode = c.to_string().to_lowercase();
            for wanted in ['.', 'e', '5', '7'] {
                assert_eq!(by_unicode.contains(wanted), c.to_ascii_lowercase() == wanted);
            }
            let path = format!("{}57", c);
            assert_eq!(
                needs_translation(&format!(".{}", path)),
                format!(".{}", path).to_lowercase().ends_with(".e57")
            );
        }
    }
}
