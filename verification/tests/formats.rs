use crabref::bibtex::BibtexFormatter;
use crabref::markdown::MarkdownFormatter;
use crabref::output::{CitationDirection, OutputFormat, OutputFormatter};
use crabref::terminal::TerminalFormatter;
use crabref::{Author, CitationStats, Paper};

fn sample_paper() -> Paper {
    let mut p = Paper::new("Deep Learning & Co".to_string())
        .with_authors(vec![Author::new("Geoffrey Hinton".to_string()), Author::new("Yann LeCun".to_string())])
        .with_publication_date("2015-05-27".to_string())
        .with_arxiv_id("1234.5678".to_string())
        .with_doi("10.1/x".to_string())
        .with_venue("Nature".to_string())
        .with_pdf_url("http://x/p.pdf".to_string())
        .with_citation_count(3);
    p.id = Some(7);
    p
}

#[test]
fn bibtex_entry_of_an_arxiv_paper() {
    let f = BibtexFormatter;
    let text = f.format_paper_detail(&sample_paper());
    assert_eq!(
        text,
        "@misc{hinton2015,\n  title = {Deep Learning \\& Co},\n  author = {Geoffrey Hinton and Yann LeCun},\n  year = {2015},\n  journal = {Nature},\n  doi = {10.1/x},\n  eprint = {1234.5678},\n  archiveprefix = {arXiv},\n  url = {http://x/p.pdf},\n}"
    );
}

#[test]
fn bibtex_key_without_authors_or_date() {
    let p = Paper::new("T".to_string());
    assert_eq!(BibtexFormatter::generate_key(&p), "unknownnodate");
    let f = BibtexFormatter;
    assert_eq!(f.format_paper_detail(&p), "@article{unknownnodate,\n  title = {T},\n}");
}

#[test]
fn bibtex_escapes_every_special_char() {
    assert_eq!(BibtexFormatter::escape_bibtex("a&b%c$d#e_f{g}h"), "a\\&b\\%c\\$d\\#e\\_f\\{g\\}h");
    assert_eq!(BibtexFormatter::escape_bibtex("plain"), "plain");
}

#[test]
fn bibtex_authors_joined_with_and() {
    let authors = vec![Author::new("A".to_string()), Author::new("B".to_string()), Author::new("C".to_string())];
    assert_eq!(BibtexFormatter::format_authors(&authors), "A and B and C");
    assert_eq!(BibtexFormatter::format_authors(&[]), "");
}

#[test]
fn bibtex_papers_separated_by_blank_lines() {
    let f = BibtexFormatter;
    let p = Paper::new("T".to_string());
    let q = Paper::new("U".to_string());
    assert_eq!(
        f.format_papers(&[p, q]),
        "@article{unknownnodate,\n  title = {T},\n}\n\n@article{unknownnodate,\n  title = {U},\n}"
    );
    assert_eq!(f.extension(), "bib");
    assert_eq!(f.format_stats(&CitationStats::default(), "0.00"), "% Citation statistics not available in BibTeX format\n");
}

#[test]
fn markdown_table_escapes_cells() {
    let f = MarkdownFormatter;
    let mut p = Paper::new("A | B\nC".to_string()).with_citation_count(3);
    p.id = Some(7);
    p.authors = vec![Author::new("Ann".to_string()), Author::new("Bob".to_string())];
    assert_eq!(
        f.format_papers(&[p]),
        "# Paper List\n\n| ID | Title | Authors | Citations |\n|----|-------|---------|----------|\n| 7 | A \\| B C | Ann, Bob | 3 |\n"
    );
}

#[test]
fn markdown_helpers() {
    assert_eq!(MarkdownFormatter::format_authors(&[]), "N/A");
    assert_eq!(MarkdownFormatter::escape_markdown("a|b\nc"), "a\\|b c");
    let f = MarkdownFormatter;
    assert_eq!(f.extension(), "md");
}

#[test]
fn markdown_detail_page() {
    let f = MarkdownFormatter;
    let p = sample_paper().with_abstract("Abs.".to_string());
    assert_eq!(
        f.format_paper_detail(&p),
        "# Deep Learning & Co\n\n## Metadata\n\n- **ID:** 7\n- **arXiv:** 1234.5678\n- **DOI:** 10.1/x\n- **Authors:** Geoffrey Hinton, Yann LeCun\n- **Citations:** 3\n- **Venue:** Nature\n- **PDF:** http://x/p.pdf\n\n## Abstract\n\nAbs.\n"
    );
}

#[test]
fn markdown_citations_and_stats() {
    let f = MarkdownFormatter;
    let p = Paper::new("T".to_string());
    let text = f.format_citations(&[(p, vec![])], CitationDirection::Cited);
    assert_eq!(text, "# Cited Papers\n\n| Title | Authors |\n|-------|--------|\n| T | N/A |\n");
    let stats = CitationStats::default();
    assert_eq!(
        f.format_stats(&stats, "0.00"),
        "# Citation Statistics\n\n## Overview\n\n- **Total Papers:** 0\n- **Total Citation Edges:** 0\n- **Average Citations:** 0.00\n- **H-Index:** 0\n- **Max Citations:** 0\n\n## Most Cited Papers\n\n| Rank | Title | Citations |\n|------|-------|----------|\n"
    );
}

#[test]
fn terminal_authors_are_shortened_after_three() {
    let four: Vec<Author> = ["A", "B", "C", "D"].iter().map(|n| Author::new(n.to_string())).collect();
    assert_eq!(TerminalFormatter::format_authors(&four), "A, et al.");
    assert_eq!(TerminalFormatter::format_authors(&four[..3]), "A, B, C");
    assert_eq!(TerminalFormatter::format_authors(&[]), "N/A");
}

#[test]
fn terminal_identifier_line() {
    let p = Paper::new("T".to_string()).with_arxiv_id("1".to_string()).with_semantic_scholar_id("S".to_string());
    assert_eq!(TerminalFormatter::format_identifier(&p), "arXiv: 1 | SS: S");
    let q = Paper::new("T".to_string()).with_arxiv_id(String::new());
    assert_eq!(TerminalFormatter::format_identifier(&q), "");
}

#[test]
fn terminal_papers_and_detail() {
    let f = TerminalFormatter::new();
    let mut p = Paper::new("T".to_string()).with_arxiv_id("1".to_string());
    p.id = Some(5);
    assert_eq!(f.format_papers(&[p.duplicate()]), "共 1 篇论文:\n\n---\nID: 5\n标题：T\narXiv: 1\n作者：N/A\n引用数：0\n");
    assert_eq!(
        f.format_paper_detail(&p),
        "[DB ID: 5]\n标题：T\narXiv: 1\n作者：N/A\nDOI: N/A\n引用数：0\nPDF: N/A\n\n摘要:\nN/A\n"
    );
    assert_eq!(f.extension(), "txt");
}

#[test]
fn terminal_citations_header_counts() {
    let f = TerminalFormatter::new();
    let p = Paper::new("T".to_string()).with_semantic_scholar_id("S".to_string());
    assert_eq!(
        f.format_citations(&[(p, vec![Author::new("A".to_string())])], CitationDirection::Citing),
        "该论文被以下 1 篇论文引用:\n---\n标题：T\nSS ID: S\n作者：A\n"
    );
}

#[test]
fn output_format_names() {
    assert_eq!("BibTeX".parse::<OutputFormat>(), Ok(OutputFormat::Bibtex));
    assert_eq!("md".parse::<OutputFormat>(), Ok(OutputFormat::Markdown));
    assert_eq!("text".parse::<OutputFormat>(), Ok(OutputFormat::Terminal));
    assert_eq!("Json".parse::<OutputFormat>(), Ok(OutputFormat::Json));
    assert_eq!("xml".parse::<OutputFormat>(), Err("Unknown format: xml".to_string()));
    assert_eq!(OutputFormat::default(), OutputFormat::Terminal);
    assert_eq!(OutputFormat::Json.extension(), "json");
    assert_eq!(OutputFormat::Terminal.extension(), "txt");
}
