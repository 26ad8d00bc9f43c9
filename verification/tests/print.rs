use mds::print::format_two_tokens;

fn strip_ansi(s: &str) -> String {
    let mut out = String::new();
    let mut chars = s.chars();
    while let Some(c) = chars.next() {
        if c == '\u{1b}' {
            for d in chars.by_ref() {
                if d == 'm' {
                    break;
                }
            }
        } else {
            out.push(c);
        }
    }
    out
}

#[test]
fn two_tokens_are_separated_by_a_space() {
    let s = format_two_tokens("viewed", "note one");
    assert_eq!(strip_ansi(&s), "viewed note one");
}

#[test]
fn empty_tokens_leave_the_space() {
    let s = format_two_tokens("", "");
    assert_eq!(strip_ansi(&s), " ");
}
