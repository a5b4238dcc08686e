//! Fixed-width pagination of plain text for the PDF converter.
//!
//! A text is cut every `LINE_WIDTH` characters, whatever the characters
//! are. The lines go down the page from `TOP_MM`, `LINE_STEP_MM` apart; the
//! line that fills a page opens the next one.

use vstd::prelude::*;

verus! {

/// Characters per line.
pub const LINE_WIDTH: usize = 110;

/// Lines per page.
pub const LINES_PER_PAGE: usize = 27;

/// Height of the first line of a page above its bottom edge, in millimetres.
pub const TOP_MM: u16 = 287;

/// Distance between two lines, in millimetres.
pub const LINE_STEP_MM: u16 = 10;

/// Distance of a line from the left edge, in millimetres.
pub const LEFT_MM: u16 = 10;

/// Font size, in points.
pub const FONT_SIZE_PT: u16 = 12;

/// Width of a page (A4), in millimetres.
pub const PAGE_WIDTH_MM: u16 = 210;

/// Height of a page (A4), in millimetres.
pub const PAGE_HEIGHT_MM: u16 = 297;

/// The typeface of a document.
#[derive(Clone, Copy, Debug, PartialEq, Eq, Structural)]
pub enum Typeface {
    TimesRoman,
}

/// A line of text at its place on a page: the distance of its start from the
/// left edge and from the bottom edge, in millimetres.
#[derive(Clone, Debug)]
pub struct Line {
    pub x_mm: u16,
    pub y_mm: u16,
    pub text: String,
}

/// The model of a `Line`.
pub struct LineView {
    pub x_mm: int,
    pub y_mm: int,
    pub text: Seq<char>,
}

impl View for Line {
    type V = LineView;

    open spec fn view(&self) -> LineView {
        LineView { x_mm: self.x_mm as int, y_mm: self.y_mm as int, text: self.text@ }
    }
}

/// The lines of one page, from the top down.
#[derive(Clone, Debug)]
pub struct Page {
    pub lines: Vec<Line>,
}

impl View for Page {
    type V = Seq<LineView>;

    open spec fn view(&self) -> Seq<LineView> {
        Seq::new(self.lines@.len(), |j: int| self.lines@[j]@)
    }
}

/// A document to print: the size of its pages in millimetres, its typeface
/// and font size in points, and its pages in order.
#[derive(Clone, Debug)]
pub struct Layout {
    pub page_width_mm: u16,
    pub page_height_mm: u16,
    pub typeface: Typeface,
    pub font_size_pt: u16,
    pub pages: Vec<Page>,
}

/// The model of a `Layout`.
pub struct LayoutView {
    pub page_width_mm: int,
    pub page_height_mm: int,
    pub typeface: Typeface,
    pub font_size_pt: int,
    pub pages: Seq<Seq<LineView>>,
}

impl View for Layout {
    type V = LayoutView;

    open spec fn view(&self) -> LayoutView {
        LayoutView {
            page_width_mm: self.page_width_mm as int,
            page_height_mm: self.page_height_mm as int,
            typeface: self.typeface,
            font_size_pt: self.font_size_pt as int,
            pages: Seq::new(self.pages@.len(), |p: int| self.pages@[p]@),
        }
    }
}

/// The quotient of `a` by `b`, rounded up.
pub open spec fn ceil_div(a: nat, b: nat) -> nat {
    ((a + b - 1) / (b as int)) as nat
}

/// Number of lines that a text of `chars` characters is cut into.
pub open spec fn line_count(chars: nat) -> nat {
    ceil_div(chars, LINE_WIDTH as nat)
}

/// Number of pages of a document of `lines` lines: the first page, and one
/// more for each page that was filled.
pub open spec fn page_count(lines: nat) -> nat {
    lines / (LINES_PER_PAGE as nat) + 1
}

/// Number of lines on page `page` of a document of `lines` lines.
pub open spec fn lines_on_page(lines: nat, page: int) -> nat {
    if page < 0 || lines <= LINES_PER_PAGE * page {
        0
    } else if lines >= LINES_PER_PAGE * (page + 1) {
        LINES_PER_PAGE as nat
    } else {
        (lines - LINES_PER_PAGE * page) as nat
    }
}

/// Height of the line in slot `slot` of a page.
pub open spec fn line_height(slot: int) -> int {
    TOP_MM - LINE_STEP_MM * slot
}

/// The characters of line `k` of a text.
pub open spec fn line_text(text: Seq<char>, k: int) -> Seq<char> {
    let start = LINE_WIDTH * k;
    let end = if start + LINE_WIDTH <= text.len() {
        start + LINE_WIDTH
    } else {
        text.len() as int
    };
    text.subrange(start, end)
}

/// The line in slot `slot` of page `page`.
pub open spec fn placed_line(text: Seq<char>, page: int, slot: int) -> LineView {
    LineView {
        x_mm: LEFT_MM as int,
        y_mm: line_height(slot),
        text: line_text(text, LINES_PER_PAGE * page + slot),
    }
}

/// The pages that a text is laid out on.
pub open spec fn pages(text: Seq<char>) -> Seq<Seq<LineView>> {
    let lines = line_count(text.len());
    Seq::new(
        page_count(lines),
        |page: int| Seq::new(lines_on_page(lines, page), |slot: int| placed_line(text, page, slot)),
    )
}

/// The document that a text is laid out as: A4 pages, set in Times Roman of
/// twelve points.
pub open spec fn layout(text: Seq<char>) -> LayoutView {
    LayoutView {
        page_width_mm: PAGE_WIDTH_MM as int,
        page_height_mm: PAGE_HEIGHT_MM as int,
        typeface: Typeface::TimesRoman,
        font_size_pt: FONT_SIZE_PT as int,
        pages: pages(text),
    }
}

/// Number of lines on the pages before page `upto`.
pub open spec fn lines_before(pages: Seq<Seq<LineView>>, upto: int) -> nat
    decreases upto,
{
    if upto <= 0 {
        0
    } else {
        lines_before(pages, upto - 1) + pages[upto - 1].len()
    }
}

/// Number of lines on all pages.
pub open spec fn placed_lines(pages: Seq<Seq<LineView>>) -> nat {
    lines_before(pages, pages.len() as int)
}

/// On the pages before page `upto` stand all the lines that fit on so many
/// pages.
proof fn lemma_lines_before(text: Seq<char>, upto: int)
    requires
        0 <= upto <= page_count(line_count(text.len())),
    ensures
        lines_before(pages(text), upto) == if LINES_PER_PAGE * upto <= line_count(text.len()) {
            LINES_PER_PAGE * upto
        } else {
            line_count(text.len()) as int
        },
    decreases upto,
{
    if upto > 0 {
        lemma_lines_before(text, upto - 1);
        let lines = line_count(text.len());
        assert(pages(text)[upto - 1].len() == lines_on_page(lines, upto - 1));
    }
}

/// A text of `n` characters is laid out in `n / 110` lines, rounded up.
pub proof fn lemma_line_count(text: Seq<char>)
    ensures
        placed_lines(pages(text)) == ceil_div(text.len(), LINE_WIDTH as nat),
{
    lemma_lines_before(text, page_count(line_count(text.len())) as int);
}

/// The lines fill the pages in order: every page but the last holds
/// `LINES_PER_PAGE` lines, and the last page holds the lines that are left,
/// fewer than `LINES_PER_PAGE` and possibly none.
pub proof fn lemma_pages_filled(text: Seq<char>, page: int)
    requires
        0 <= page < pages(text).len(),
    ensures
        pages(text).len() == placed_lines(pages(text)) / (LINES_PER_PAGE as nat) + 1,
        page < pages(text).len() - 1 ==> pages(text)[page].len() == LINES_PER_PAGE,
        page == pages(text).len() - 1 ==> pages(text)[page].len() == placed_lines(pages(text))
            % (LINES_PER_PAGE as nat),
{
    lemma_line_count(text);
}

/// Where the last page is not left blank, the lines are laid out on
/// `lines / 27` pages, rounded up. (A number of lines that fills its pages
/// exactly, none included, leaves one more page, which is blank.)
pub proof fn lemma_page_count(text: Seq<char>)
    requires
        placed_lines(pages(text)) % (LINES_PER_PAGE as nat) != 0,
    ensures
        pages(text).len() == ceil_div(placed_lines(pages(text)), LINES_PER_PAGE as nat),
{
    lemma_line_count(text);
}

/// A text that is not empty has a first page with a first line on it, and
/// this line is not empty.
pub proof fn lemma_first_line(text: Seq<char>)
    requires
        text.len() > 0,
    ensures
        pages(text).len() > 0,
        pages(text)[0].len() > 0,
        pages(text)[0][0].text.len() > 0,
{
}

/// Every line but the last of a text holds `LINE_WIDTH` characters; the last
/// holds what is left, at least one character.
pub proof fn lemma_line_lengths(text: Seq<char>, k: int)
    requires
        0 <= k < line_count(text.len()),
    ensures
        k < line_count(text.len()) - 1 ==> line_text(text, k).len() == LINE_WIDTH,
        k == line_count(text.len()) - 1 ==> line_text(text, k).len() == text.len() - LINE_WIDTH
            * k,
        0 < line_text(text, k).len() <= LINE_WIDTH,
{
}

/// The first `upto` lines of a text, one behind the other.
pub open spec fn lines_joined(text: Seq<char>, upto: int) -> Seq<char>
    decreases upto,
{
    if upto <= 0 {
        Seq::<char>::empty()
    } else {
        lines_joined(text, upto - 1) + line_text(text, upto - 1)
    }
}

/// The first `upto` lines of a text are its first characters, in order, and
/// all lines together are the whole text: the cut loses nothing and adds
/// nothing.
pub proof fn lemma_lines_cover_text(text: Seq<char>, upto: int)
    requires
        0 <= upto <= line_count(text.len()),
    ensures
        upto < line_count(text.len()) ==> lines_joined(text, upto) == text.subrange(
            0,
            LINE_WIDTH * upto,
        ),
        upto == line_count(text.len()) ==> lines_joined(text, upto) == text,
    decreases upto,
{
    if upto > 0 {
        lemma_lines_cover_text(text, upto - 1);
        lemma_line_lengths(text, upto - 1);
        let before = text.subrange(0, LINE_WIDTH * (upto - 1));
        assert(lines_joined(text, upto - 1) == before);
        if upto < line_count(text.len()) {
            assert(before + line_text(text, upto - 1) =~= text.subrange(0, LINE_WIDTH * upto));
        } else {
            assert(before + line_text(text, upto - 1) =~= text);
        }
    } else {
        assert(lines_joined(text, 0) =~= text.subrange(0, 0));
        if line_count(text.len()) == 0 {
            assert(text =~= Seq::<char>::empty());
        }
    }
}

} // verus!
