use xl::style::is_date;

#[test]
fn date_styles() {
    for code in ["d", "mm-dd-yy", "d-mmm-yy", "m/d/yy h:mm", "yyyy", "h:mm:ss", "mm:ss", "[h]:mm:ss", "dd", "y", "Redm"] {
        assert!(is_date(&code.to_string()), "{}", code);
    }
}

#[test]
fn styles_that_are_no_dates() {
    for code in ["", "General", "0", "0.00", "#,##0", "0%", "0.00E+00", "# ?/?", "@", "D", "M", "Y", "h:MM", "AM/PM"] {
        assert!(!is_date(&code.to_string()), "{}", code);
    }
}

#[test]
fn the_colour_red_guards_the_letter_d() {
    assert!(!is_date(&"#,##0 ;[Red](#,##0)".to_string()));
    assert!(!is_date(&"#,##0.00;[Red](#,##0.00)".to_string()));
    assert!(!is_date(&"[Red]d".to_string()));
    assert!(!is_date(&"Red".to_string()));
    assert!(is_date(&"[red]d".to_string()));
    assert!(is_date(&"[Re d]".to_string()));
    assert!(is_date(&"[Red]m".to_string()));
    assert!(is_date(&"[Red]dy".to_string()));
}
