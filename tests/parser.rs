use mathsbot::parser::{classify_message, extract_fragments, MessageType};

#[test]
fn simple_plain_test() {
    assert!(classify_message(r"Hello, how are you?") == MessageType::Plain);
}

#[test]
fn dollars_plain_test() {
    assert!(
        classify_message(r"The cost of one pineapple is $1.50; the cost of a second is $90")
            == MessageType::Plain
    );
}

#[test]
fn which_is_pretty_cool_test() {
    assert!(
        classify_message(r"The square root of x is denoted $\sqrt{x}$, which is pretty cool")
            == MessageType::LaTeX
    );
}

#[test]
fn two_in_middle_test() {
    assert!(
        classify_message(r"Hello! $3 + 5 = 7$ is one equation. $x = \frac{-b \pm \sqrt{b^2 - 4ac}}{2a}$ is another one.")
            == MessageType::LaTeX
    );
}

#[test]
fn start_test() {
    assert!(classify_message(r"$abc$ was at the start") == MessageType::LaTeX);
}

#[test]
fn end_test() {
    assert!(classify_message(r"at the end is $abc$") == MessageType::LaTeX);
}

#[test]
fn start_and_end_test() {
    assert!(classify_message(r"$abc$") == MessageType::LaTeX);
}

#[test]
fn environment_test() {
    assert!(classify_message(r"\begin{center} abc \end{center}") == MessageType::LaTeX);
}

#[test]
fn environment_surrounded_test() {
    assert!(
        classify_message(r"will be centered; \begin{center} abc \end{center}; was centered.")
            == MessageType::LaTeX
    );
}

#[test]
fn empty_text_is_plain() {
    assert_eq!(classify_message(""), MessageType::Plain);
    assert!(extract_fragments("").is_empty());
}

#[test]
fn two_prices_are_plain() {
    assert_eq!(classify_message("The cost is $1.50; another is $90"), MessageType::Plain);
}

#[test]
fn sqrt_at_start_is_maths() {
    assert_eq!(classify_message(r"$\sqrt{x}$, which is pretty cool"), MessageType::LaTeX);
}

#[test]
fn lone_price_is_plain() {
    assert_eq!(classify_message("only $1.50 today"), MessageType::Plain);
    assert_eq!(classify_message("$"), MessageType::Plain);
}

#[test]
fn dollars_on_separate_lines_are_plain() {
    assert_eq!(classify_message("costs $\nand $ more"), MessageType::Plain);
    assert_eq!(classify_message("costs $\nand $x$ more"), MessageType::LaTeX);
}

#[test]
fn closing_dollar_before_digit_then_before_letter() {
    assert_eq!(classify_message("$a$1 and $b$c"), MessageType::LaTeX);
    assert_eq!(classify_message("$a$1"), MessageType::Plain);
}

#[test]
fn unusual_characters_are_plain() {
    assert_eq!(classify_message("\u{200b}\u{1f600}\u{7}\t"), MessageType::Plain);
    assert!(extract_fragments("\u{200b}\u{1f600}\u{7}\t").is_empty());
}

#[test]
fn extract_two_fenced_fragments() {
    let r = extract_fragments("Hello! `$3 + 5 = 7$` is one. `$x = y$` is another.");
    assert_eq!(r, vec!["3 + 5 = 7".to_string(), "x = y".to_string()]);
}

#[test]
fn extract_adjacent_fences_yield_nothing() {
    assert!(extract_fragments("`$abc$``$xyz$`").is_empty());
}

#[test]
fn extract_fences_separated_by_text() {
    let r = extract_fragments("`$lol$`rofl`$kek$`");
    assert_eq!(r, vec!["lol".to_string(), "kek".to_string()]);
}

#[test]
fn extract_ignores_stray_dollar_outside_fence() {
    assert!(extract_fragments("$`$a$`").is_empty());
    assert!(extract_fragments("`$a$`$").is_empty());
    assert!(extract_fragments("`$$`").is_empty());
    assert_eq!(extract_fragments("`$\u{3b1}$`"), vec!["\u{3b1}".to_string()]);
}

#[test]
fn extract_without_fences_is_empty() {
    assert!(extract_fragments("plain $x$ text").is_empty());
}

#[test]
fn classify_and_extract_are_repeatable() {
    let text = "Hello! `$3 + 5 = 7$` and $x$";
    assert_eq!(classify_message(text), classify_message(text));
    assert_eq!(extract_fragments(text), extract_fragments(text));
    assert_eq!(classify_message(text), MessageType::LaTeX);
}
