//! Where the tables of results stand in the extracted text.

use crate::extraction::PageContent;
use crate::text::{contains_text, has_prefix, lowercased, trimmed};
use vstd::prelude::*;

verus! {

/// The number of column titles that a lowercase line holds.
pub open spec fn header_words(lower: Seq<char>) -> int {
    (if contains_text(lower, "analys"@) {
        1int
    } else {
        0int
    }) + (if contains_text(lower, "parameter"@) {
        1int
    } else {
        0int
    }) + (if contains_text(lower, "resultat"@) {
        1int
    } else {
        0int
    }) + (if contains_text(lower, "enhet"@) {
        1int
    } else {
        0int
    }) + (if contains_text(lower, "metod"@) {
        1int
    } else {
        0int
    }) + (if contains_text(lower, "mätosäkerhet"@) {
        1int
    } else {
        0int
    })
}

/// Whether a line is the header row of a table: it holds, in any case of
/// letters, at least two of the column titles.
pub open spec fn heads_table(line: Seq<char>) -> bool {
    header_words(lowercased(line)) >= 2
}

/// Whether a line is the header row of a table.
pub fn is_table_header(line: &str) -> (r: bool)
    ensures
        r == heads_table(line@),
{
    let lower = crate::text::chars_of(crate::text::lowercase(line).as_str());
    let mut count: usize = 0;
    if crate::text::has(&lower, "analys") {
        count += 1;
    }
    if crate::text::has(&lower, "parameter") {
        count += 1;
    }
    if crate::text::has(&lower, "resultat") {
        count += 1;
    }
    if crate::text::has(&lower, "enhet") {
        count += 1;
    }
    if crate::text::has(&lower, "metod") {
        count += 1;
    }
    if crate::text::has(&lower, "mätosäkerhet") {
        count += 1;
    }
    count >= 2
}

/// The lines `start_line..end_line` of a page: the rows of one table.
#[derive(Debug, Clone, Copy, PartialEq, Eq)]
pub struct TableRegion {
    pub page_number: usize,
    pub start_line: usize,
    pub end_line: usize,
}

/// Whether a line ends a table: it is blank, or begins with `Sida`, `Page`
/// or `---`, or names the laboratory.
pub open spec fn ends_table(line: Seq<char>) -> bool {
    let t = trimmed(line);
    t.len() == 0 || has_prefix(t, "Sida"@) || has_prefix(t, "Page"@) || contains_text(
        t,
        "Eurofins"@,
    ) || has_prefix(t, "---"@)
}

/// The state of the scan of a page: the regions found, and the first row
/// of the table that is open, if one is.
pub struct Scan {
    pub regions: Seq<TableRegion>,
    pub open: Option<int>,
}

/// The scan of a page after its first `upto` lines. A header row opens a
/// table with the line after it; a line that ends a table closes the open
/// one, which counts where it has a row.
pub open spec fn scan_page(page: PageContent, upto: int) -> Scan
    decreases upto,
{
    if upto <= 0 || upto > page.lines.len() {
        Scan { regions: Seq::empty(), open: None }
    } else {
        let before = scan_page(page, upto - 1);
        let line = page.lines[upto - 1]@;
        if heads_table(line) {
            Scan { regions: before.regions, open: Some(upto) }
        } else if before.open is Some && ends_table(line) {
            Scan {
                regions: if upto - 1 > before.open->0 {
                    before.regions.push(
                        TableRegion {
                            page_number: page.page_number,
                            start_line: before.open->0 as usize,
                            end_line: (upto - 1) as usize,
                        },
                    )
                } else {
                    before.regions
                },
                open: None,
            }
        } else {
            before
        }
    }
}

/// The tables of a page: those that the scan closed, and the one still
/// open at the end of the page where it has a row.
pub open spec fn page_regions(page: PageContent) -> Seq<TableRegion> {
    let last = scan_page(page, page.lines.len() as int);
    if last.open is Some && page.lines.len() > last.open->0 {
        last.regions.push(
            TableRegion {
                page_number: page.page_number,
                start_line: last.open->0 as usize,
                end_line: page.lines.len() as usize,
            },
        )
    } else {
        last.regions
    }
}

/// The tables of the first `upto` pages, in order.
pub open spec fn regions_upto(pages: Seq<PageContent>, upto: int) -> Seq<TableRegion>
    decreases upto,
{
    if upto <= 0 || upto > pages.len() {
        Seq::empty()
    } else {
        regions_upto(pages, upto - 1) + page_regions(pages[upto - 1])
    }
}

/// Whether a line ends a table.
fn is_table_end(line: &str) -> (r: bool)
    ensures
        r == ends_table(line@),
{
    let t = crate::text::trimmed_chars(line);
    t.len() == 0 || crate::text::begins_with(&t, "Sida") || crate::text::begins_with(&t, "Page")
        || crate::text::has(&t, "Eurofins") || crate::text::begins_with(&t, "---")
}

/// The ranges of lines that hold the rows of tables, page by page.
pub fn find_table_regions(pages: &[PageContent]) -> (r: Vec<TableRegion>)
    ensures
        r@ == regions_upto(pages@, pages.len() as int),
{
    let mut regions: Vec<TableRegion> = Vec::new();
    let mut p: usize = 0;
    while p < pages.len()
        invariant
            p <= pages.len(),
            regions@ == regions_upto(pages@, p as int),
        decreases pages.len() - p,
    {
        let page = &pages[p];
        let ghost done = regions@;
        let mut in_table = false;
        let mut table_start: usize = 0;
        let mut i: usize = 0;
        assert(regions@ =~= done + scan_page(*page, 0).regions);
        while i < page.lines.len()
            invariant
                i <= page.lines.len(),
                regions@ == done + scan_page(*page, i as int).regions,
                in_table == (scan_page(*page, i as int).open is Some),
                in_table ==> scan_page(*page, i as int).open == Some(table_start as int),
                in_table ==> table_start <= i,
            decreases page.lines.len() - i,
        {
            let line = page.lines[i].as_str();
            if is_table_header(line) {
                in_table = true;
                table_start = i + 1;
            } else if in_table && is_table_end(line) {
                if i > table_start {
                    regions.push(
                        TableRegion {
                            page_number: page.page_number,
                            start_line: table_start,
                            end_line: i,
                        },
                    );
                }
                in_table = false;
            }
            i += 1;
            assert(regions@ =~= done + scan_page(*page, i as int).regions);
        }
        if in_table && page.lines.len() > table_start {
            regions.push(
                TableRegion {
                    page_number: page.page_number,
                    start_line: table_start,
                    end_line: page.lines.len(),
                },
            );
        }
        assert(regions@ =~= done + page_regions(*page));
        p += 1;
    }
    regions
}

} // verus!
