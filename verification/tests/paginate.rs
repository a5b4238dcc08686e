use proc_doc::paginate::{
    Layout, Typeface, FONT_SIZE_PT, LEFT_MM, LINES_PER_PAGE, LINE_STEP_MM, LINE_WIDTH,
    PAGE_HEIGHT_MM, PAGE_WIDTH_MM, TOP_MM,
};
use proc_doc::pdf::{txt_to_pdf, BYTE_LIMIT};

fn lines_of(layout: &Layout) -> Vec<usize> {
    layout.pages.iter().map(|page| page.lines.len()).collect()
}

fn text_of(layout: &Layout) -> String {
    layout
        .pages
        .iter()
        .flat_map(|page| page.lines.iter().map(|line| line.text.as_str()))
        .collect()
}

fn sample(chars: usize) -> String {
    (0..chars).map(|i| char::from(b'a' + (i % 26) as u8)).collect()
}

#[test]
fn constants_are_those_of_the_page() {
    assert_eq!(LINE_WIDTH, 110);
    assert_eq!(LINES_PER_PAGE, 27);
    assert_eq!(TOP_MM, 287);
    assert_eq!(LINE_STEP_MM, 10);
    assert_eq!(LEFT_MM, 10);
    assert_eq!(FONT_SIZE_PT, 12);
    assert_eq!(PAGE_WIDTH_MM, 210);
    assert_eq!(PAGE_HEIGHT_MM, 297);
    assert_eq!(BYTE_LIMIT, 2_147_483_648);
}

#[test]
fn document_is_a4_in_times_of_twelve_points() {
    let layout = txt_to_pdf("hello");
    assert_eq!(layout.page_width_mm, 210);
    assert_eq!(layout.page_height_mm, 297);
    assert_eq!(layout.typeface, Typeface::TimesRoman);
    assert_eq!(layout.font_size_pt, 12);
    assert_eq!(layout.pages[0].lines[0].x_mm, 10);
}

#[test]
fn empty_text_is_one_blank_page() {
    let layout = txt_to_pdf("");
    assert_eq!(lines_of(&layout), vec![0]);
}

#[test]
fn short_text_is_one_line() {
    let layout = txt_to_pdf("hello");
    assert_eq!(lines_of(&layout), vec![1]);
    assert_eq!(layout.pages[0].lines[0].text, "hello");
    assert_eq!(layout.pages[0].lines[0].y_mm, 287);
}

#[test]
fn full_line_has_no_remainder() {
    let text = sample(110);
    let layout = txt_to_pdf(&text);
    assert_eq!(lines_of(&layout), vec![1]);
    assert_eq!(layout.pages[0].lines[0].text, text);
}

#[test]
fn one_character_more_opens_a_line() {
    let text = sample(111);
    let layout = txt_to_pdf(&text);
    assert_eq!(lines_of(&layout), vec![2]);
    assert_eq!(layout.pages[0].lines[0].text, &text[..110]);
    assert_eq!(layout.pages[0].lines[1].text, &text[110..]);
    assert_eq!(layout.pages[0].lines[1].y_mm, 277);
}

#[test]
fn five_hundred_characters_are_five_lines() {
    let text = sample(500);
    let layout = txt_to_pdf(&text);
    assert_eq!(lines_of(&layout), vec![5]);
    let lengths: Vec<usize> = layout.pages[0].lines.iter().map(|l| l.text.len()).collect();
    assert_eq!(lengths, vec![110, 110, 110, 110, 60]);
    let heights: Vec<u16> = layout.pages[0].lines.iter().map(|l| l.y_mm).collect();
    assert_eq!(heights, vec![287, 277, 267, 257, 247]);
    assert_eq!(text_of(&layout), text);
}

#[test]
fn full_page_opens_a_blank_one() {
    let text = sample(27 * 110);
    let layout = txt_to_pdf(&text);
    assert_eq!(lines_of(&layout), vec![27, 0]);
    assert_eq!(layout.pages[0].lines[26].y_mm, 27);
    assert_eq!(text_of(&layout), text);
}

#[test]
fn line_after_a_full_page_stands_on_top_of_the_next() {
    let text = sample(27 * 110 + 1);
    let layout = txt_to_pdf(&text);
    assert_eq!(lines_of(&layout), vec![27, 1]);
    assert_eq!(layout.pages[1].lines[0].y_mm, 287);
    assert_eq!(layout.pages[1].lines[0].text, &text[27 * 110..]);
}

#[test]
fn long_text_fills_pages_in_order() {
    let text = sample(7000);
    let layout = txt_to_pdf(&text);
    assert_eq!(lines_of(&layout), vec![27, 27, 10]);
    assert_eq!(layout.pages[2].lines[9].text.len(), 7000 - 63 * 110);
    assert_eq!(text_of(&layout), text);
    for page in &layout.pages {
        for (slot, line) in page.lines.iter().enumerate() {
            assert_eq!(line.y_mm as usize, 287 - 10 * slot);
        }
    }
}

#[test]
fn lines_are_cut_by_characters_not_bytes() {
    let text: String = "é".repeat(120) + "€𝄞z";
    let layout = txt_to_pdf(&text);
    assert_eq!(lines_of(&layout), vec![2]);
    assert_eq!(layout.pages[0].lines[0].text, "é".repeat(110));
    assert_eq!(layout.pages[0].lines[1].text, "é".repeat(10) + "€𝄞z");
}

#[test]
fn characters_of_every_width_are_cut_whole() {
    let text: String = "a€".repeat(54) + "é𝄞" + &"𝄞é".repeat(60) + "z";
    let chars: Vec<char> = text.chars().collect();
    assert_eq!(chars.len(), 231);
    let layout = txt_to_pdf(&text);
    assert_eq!(lines_of(&layout), vec![3]);
    let first: String = chars[..110].iter().collect();
    let second: String = chars[110..220].iter().collect();
    let third: String = chars[220..].iter().collect();
    assert_eq!(layout.pages[0].lines[0].text, first);
    assert_eq!(layout.pages[0].lines[1].text, second);
    assert_eq!(layout.pages[0].lines[2].text, third);
    assert_eq!(text_of(&layout), text);
}

#[test]
fn lines_and_pages_are_counted_by_rounding_up() {
    for chars in [0usize, 1, 109, 110, 111, 219, 220, 221, 2969, 2970, 2971, 5940, 5941, 6000] {
        let layout = txt_to_pdf(&sample(chars));
        let lines: usize = lines_of(&layout).iter().sum();
        assert_eq!(lines, (chars + 109) / 110);
        assert_eq!(layout.pages.len(), lines / 27 + 1);
        if lines % 27 != 0 {
            assert_eq!(layout.pages.len(), (lines + 26) / 27);
        }
    }
}
