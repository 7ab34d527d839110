use std::io::Read;

use one2xopp::assemble::{output_file, render_section};
use one2xopp::config::RenderConfig;
use one2xopp::model::{Page, PageSeries, Section};

fn chars(s: &str) -> Vec<char> {
    s.chars().collect()
}

fn untitled_page() -> Page {
    Page {
        title: None,
        contents: vec![],
    }
}

fn titled_page(title: &str) -> Page {
    Page {
        title: Some(chars(title)),
        contents: vec![],
    }
}

const ENVELOPE_HEAD: &str = "<?xml version=\"1.0\" standalone=\"no\"?>\n        <xournal creator=\"Xournal++ 1.1.3\" fileversion=\"4\">\n        <title>Xournal++ document - see https://github.com/xournalpp/xournalpp</title>\n";

#[test]
fn envelope_wraps_page_markup() {
    let doc = output_file("PAGES".to_string(), "name".to_string());
    assert_eq!(doc.xml, format!("{ENVELOPE_HEAD}PAGES</xournal>"));
    assert_eq!(doc.file_name, "name");
}

#[test]
fn container_decompresses_to_the_markup_with_exact_metadata() {
    let doc = output_file("PAGES".to_string(), "name".to_string());
    assert!(doc.container.len() >= 10);
    assert_eq!(doc.container[0], 0x1f);
    assert_eq!(doc.container[1], 0x8b);
    let mut gz = flate2::read::GzDecoder::new(&doc.container[..]);
    {
        let header = gz.header().expect("gzip header");
        assert_eq!(header.filename(), Some("name.xml".as_bytes()));
        assert_eq!(header.comment(), Some("Output file".as_bytes()));
    }
    let mut plain = String::new();
    gz.read_to_string(&mut plain).expect("decompress");
    assert_eq!(plain, doc.xml);
}

#[test]
fn split_mode_names_pages_after_stem_and_title() {
    let cfg = RenderConfig::default();
    let section = Section {
        page_series: vec![PageSeries {
            pages: vec![titled_page("  My Page  ")],
        }],
    };
    let docs = render_section(&section, &chars("notes"), &cfg);
    assert_eq!(docs.len(), 1);
    assert_eq!(docs[0].file_name, "notes - My Page");
    assert_eq!(docs[0].raw_name, "notes - My Page");
}

#[test]
fn path_separators_are_replaced_then_sanitized() {
    let cfg = RenderConfig::default();
    let section = Section {
        page_series: vec![PageSeries {
            pages: vec![titled_page("a/b:c")],
        }],
    };
    let docs = render_section(&section, &chars("n"), &cfg);
    // '/' becomes '_' in verified code; ':' is removed by the sanitizer.
    assert_eq!(docs[0].raw_name, "n - a_b:c");
    assert_eq!(docs[0].file_name, "n - a_bc");
}

#[test]
fn untitled_counter_is_document_scoped_across_series() {
    let cfg = RenderConfig::default();
    let section = Section {
        page_series: vec![
            PageSeries {
                pages: vec![untitled_page(), titled_page("T")],
            },
            PageSeries {
                pages: vec![untitled_page()],
            },
        ],
    };
    let docs = render_section(&section, &chars("s"), &cfg);
    assert_eq!(docs.len(), 3);
    assert_eq!(docs[0].file_name, "s - Untitled Page 1");
    assert_eq!(docs[1].file_name, "s - T");
    assert_eq!(docs[2].file_name, "s - Untitled Page 2");
}

#[test]
fn aggregate_mode_concatenates_pages_into_one_output() {
    let cfg = RenderConfig {
        aggregate_pages: true,
        ..RenderConfig::default()
    };
    let section = Section {
        page_series: vec![PageSeries {
            pages: vec![untitled_page(), untitled_page()],
        }],
    };
    let docs = render_section(&section, &chars("all"), &cfg);
    assert_eq!(docs.len(), 1);
    assert_eq!(docs[0].file_name, "all");
    let page_block = "<page width=\"625.276\" height=\"871.89\">\n        <background type=\"solid\" color=\"#ffffffff\" style=\"graph\"/>\n        <layer>\n</layer>\n</page>\n";
    assert_eq!(
        docs[0].xml,
        format!("{ENVELOPE_HEAD}{page_block}{page_block}</xournal>")
    );
}

#[test]
fn aggregate_mode_with_no_pages_still_emits_one_output() {
    let cfg = RenderConfig {
        aggregate_pages: true,
        ..RenderConfig::default()
    };
    let section = Section { page_series: vec![] };
    let docs = render_section(&section, &chars("empty"), &cfg);
    assert_eq!(docs.len(), 1);
    assert_eq!(docs[0].xml, format!("{ENVELOPE_HEAD}</xournal>"));
}

#[test]
fn split_mode_with_no_pages_emits_nothing() {
    let cfg = RenderConfig::default();
    let section = Section { page_series: vec![] };
    let docs = render_section(&section, &chars("empty2"), &cfg);
    assert_eq!(docs.len(), 0);
}
