use tfl::text::{decimal_string, lines_exec, split_on_exec, strip_all_prefix_exec, strip_all_suffix_exec};

fn text(v: &[char]) -> String {
    v.iter().collect()
}

#[test]
fn decimal_numbers() {
    assert_eq!(decimal_string(0), "0");
    assert_eq!(decimal_string(7), "7");
    assert_eq!(decimal_string(1050), "1050");
    assert_eq!(decimal_string(u64::MAX), "18446744073709551615");
}

#[test]
fn lines_as_str_lines_gives_them() {
    for s in ["a\nb", "a\n", "", "\n", "a\r\nb\r\n", "a\n\nb", "x\r", "a\rb\n"] {
        let chars: Vec<char> = s.chars().collect();
        let got: Vec<String> = lines_exec(&chars).iter().map(|l| text(l)).collect();
        let want: Vec<String> = s.lines().map(|l| l.to_string()).collect();
        assert_eq!(got, want, "lines of {s:?}");
    }
}

#[test]
fn split_as_str_split_gives_it() {
    for s in ["a/b/c", "", "/", "a//b/", "abc"] {
        let chars: Vec<char> = s.chars().collect();
        let got: Vec<String> = split_on_exec(&chars, '/').iter().map(|l| text(l)).collect();
        let want: Vec<String> = s.split('/').map(|l| l.to_string()).collect();
        assert_eq!(got, want, "pieces of {s:?}");
    }
}

#[test]
fn repeated_prefix_and_suffix_removal() {
    let s: Vec<char> = "cardcard7".chars().collect();
    let p: Vec<char> = "card".chars().collect();
    assert_eq!(text(&strip_all_prefix_exec(&s, &p)), "cardcard7".trim_start_matches("card"));
    let t: Vec<char> = "96MhzMhz".chars().collect();
    let q: Vec<char> = "Mhz".chars().collect();
    assert_eq!(text(&strip_all_suffix_exec(&t, &q)), "96MhzMhz".trim_end_matches("Mhz"));
}
