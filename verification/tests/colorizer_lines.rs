use dev_launcher::colorizer::{
    ansi_256_to_color, ansi_code_to_color, get_prefix_color, parse_ansi_line, Rgb,
};

fn rgb(r: u8, g: u8, b: u8) -> Rgb {
    Rgb { r, g, b }
}

#[test]
fn palette_first_sixteen_are_literal() {
    assert_eq!(ansi_256_to_color(0), rgb(0, 0, 0));
    assert_eq!(ansi_256_to_color(5), rgb(128, 0, 128));
    assert_eq!(ansi_256_to_color(15), rgb(255, 255, 255));
}

#[test]
fn palette_cube_steps_by_51() {
    assert_eq!(ansi_256_to_color(16), rgb(0, 0, 0));
    assert_eq!(ansi_256_to_color(196), rgb(255, 0, 0));
    assert_eq!(ansi_256_to_color(231), rgb(255, 255, 255));
    assert_eq!(ansi_256_to_color(75), rgb(51, 153, 255));
}

#[test]
fn palette_grayscale_ramp() {
    assert_eq!(ansi_256_to_color(232), rgb(8, 8, 8));
    assert_eq!(ansi_256_to_color(240), rgb(88, 88, 88));
    assert_eq!(ansi_256_to_color(255), rgb(238, 238, 238));
}

#[test]
fn base_color_codes() {
    assert_eq!(ansi_code_to_color("31", true), rgb(255, 100, 100));
    assert_eq!(ansi_code_to_color("31", false), rgb(180, 0, 0));
    assert_eq!(ansi_code_to_color("97", true), rgb(255, 255, 255));
    assert_eq!(ansi_code_to_color("0", true), rgb(200, 200, 200));
}

#[test]
fn palette_and_truecolor_codes() {
    assert_eq!(ansi_code_to_color("38;5;196", true), rgb(255, 0, 0));
    assert_eq!(ansi_code_to_color("38;2;10;20;30", true), rgb(10, 20, 30));
}

#[test]
fn unknown_codes_fall_back_to_default() {
    assert_eq!(ansi_code_to_color("", true), rgb(200, 200, 200));
    assert_eq!(ansi_code_to_color("1", true), rgb(200, 200, 200));
    assert_eq!(ansi_code_to_color("38;5;300", true), rgb(200, 200, 200));
    assert_eq!(ansi_code_to_color("38;9", false), rgb(0, 0, 0));
}

#[test]
fn prefix_colors_by_label_and_mode() {
    assert_eq!(get_prefix_color("[FRONTEND]", true), rgb(100, 180, 255));
    assert_eq!(get_prefix_color("[FRONTEND]", false), rgb(0, 80, 180));
    assert_eq!(get_prefix_color("[SYSTEM]", true), rgb(255, 200, 100));
    assert_eq!(get_prefix_color("[nobody]", true), rgb(200, 200, 200));
}

#[test]
fn escape_free_line_is_one_fragment() {
    let frags = parse_ansi_line("plain text", "[FRONTEND]", true);
    assert_eq!(frags.len(), 1);
    assert_eq!(frags[0].text, "plain text");
    assert_eq!(frags[0].color, rgb(100, 180, 255));
}

#[test]
fn empty_line_is_one_empty_fragment() {
    let frags = parse_ansi_line("", "[BACKEND]", true);
    assert_eq!(frags.len(), 1);
    assert_eq!(frags[0].text, "");
    assert_eq!(frags[0].color, rgb(100, 255, 150));
}

#[test]
fn fragments_concatenate_to_input_without_escapes() {
    let line = "a\x1b[31mred\x1b[38;5;196m deep \x1b[0mback\x1b[2Kplain";
    let frags = parse_ansi_line(line, "[FRONTEND]", true);
    let joined: String = frags.iter().map(|f| f.text.as_str()).collect();
    assert_eq!(joined, "ared deep backplain");
}

#[test]
fn color_changes_at_each_sgr_sequence() {
    let frags = parse_ansi_line("a\x1b[31mb\x1b[32mc", "[FRONTEND]", true);
    assert_eq!(frags.len(), 3);
    assert_eq!(frags[0].text, "a");
    assert_eq!(frags[0].color, rgb(100, 180, 255));
    assert_eq!(frags[1].text, "b");
    assert_eq!(frags[1].color, rgb(255, 100, 100));
    assert_eq!(frags[2].text, "c");
    assert_eq!(frags[2].color, rgb(100, 255, 100));
}

#[test]
fn non_color_sequences_are_stripped_without_color_change() {
    let frags = parse_ansi_line("x\x1b[31my\x1b[2Kz", "[FRONTEND]", true);
    assert_eq!(frags.len(), 3);
    assert_eq!(frags[0].text, "x");
    assert_eq!(frags[1].text, "y");
    assert_eq!(frags[1].color, rgb(255, 100, 100));
    assert_eq!(frags[2].text, "z");
    assert_eq!(frags[2].color, rgb(255, 100, 100), "a stripped sequence keeps the color");
}

#[test]
fn malformed_escape_passes_through_literally() {
    let frags = parse_ansi_line("tail\x1b[31", "[FRONTEND]", true);
    let joined: String = frags.iter().map(|f| f.text.as_str()).collect();
    assert_eq!(joined, "tail\x1b[31");
}

#[test]
fn line_of_only_escapes_yields_no_fragments() {
    let frags = parse_ansi_line("\x1b[31m\x1b[0m", "[FRONTEND]", true);
    assert!(frags.is_empty());
}
