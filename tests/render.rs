use mathsbot::render::{
    maths_to_document, mbtob, minimise_latex_error, resource_limits, LimitKind, ResourceLimit,
    NICE_INCREMENT, WATCHDOG_SECONDS,
};

#[test]
fn document_wraps_fragment() {
    let doc = maths_to_document(r"x^2");
    assert_eq!(
        doc,
        "\\documentclass{standalone}\n\\usepackage{amsmath}\n\\begin{document}\n$ \\displaystyle\nx^2$ \\end{document}"
    );
}

#[test]
fn megabytes_to_bytes() {
    assert_eq!(mbtob(0), 0);
    assert_eq!(mbtob(10), 10485760);
    assert_eq!(mbtob(200), 209715200);
    assert_eq!(mbtob(50), 52428800);
    assert_eq!(mbtob(5), 5242880);
}

#[test]
fn limit_profile_values() {
    let limits = resource_limits();
    assert_eq!(limits.len(), 8);
    assert_eq!(limits[0], ResourceLimit { kind: LimitKind::CoreSize, value: 0 });
    assert_eq!(limits[1], ResourceLimit { kind: LimitKind::CpuSeconds, value: 4 });
    assert_eq!(limits[2], ResourceLimit { kind: LimitKind::DataSize, value: 52428800 });
    assert_eq!(limits[3], ResourceLimit { kind: LimitKind::FileSize, value: 5242880 });
    assert_eq!(limits[4], ResourceLimit { kind: LimitKind::MessageQueueBytes, value: 1024 });
    assert_eq!(limits[5], ResourceLimit { kind: LimitKind::OpenFiles, value: 200 });
    assert_eq!(limits[6], ResourceLimit { kind: LimitKind::RealtimeMicros, value: 1 });
    assert_eq!(limits[7], ResourceLimit { kind: LimitKind::StackSize, value: 10485760 });
    assert_eq!(NICE_INCREMENT, 10);
    assert_eq!(WATCHDOG_SECONDS, 10);
}

#[test]
fn minimise_starts_at_first_bang() {
    let transcript = "This is pdfTeX\n(./maths.tex\n! Undefined control sequence.\nl.5 \\foo\n! again";
    assert_eq!(
        minimise_latex_error(transcript),
        "! Undefined control sequence.\nl.5 \\foo\n! again"
    );
}

#[test]
fn minimise_without_bang_keeps_everything() {
    assert_eq!(minimise_latex_error("no marker here"), "no marker here");
    assert_eq!(minimise_latex_error(""), "");
}

#[test]
fn minimise_counts_characters_not_bytes() {
    assert_eq!(minimise_latex_error("\u{e9}\u{e9}ab! x"), "! x");
}
