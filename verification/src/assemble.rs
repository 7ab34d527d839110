//! Document and output assembly: the title-fallback counter, output file
//! naming, the fixed document envelope, and the compressed container.

use vstd::prelude::*;
use crate::model::{Page, PageSeries, Section, wf_page, wf_section};
use crate::config::RenderConfig;
use crate::markup::{page_text, document_text};
use crate::text::{dec_seq, page_name_seq, page_name_chars, push_chars, push_dec_chars};
use crate::bridge::{sanitize_name, gzip_container, gzip_of, ok_name_char};
use crate::render::render_page;

verus! {

/// The fallback title of the `k`-th untitled page of a document (`k`
/// starts at 1).
pub open spec fn untitled_seq(k: int) -> Seq<char> {
    seq!['U', 'n', 't', 'i', 't', 'l', 'e', 'd', ' ', 'P', 'a', 'g', 'e', ' '] + dec_seq(k)
}

/// All pages of a section, in document order: its page series concatenated.
pub open spec fn all_pages(ss: Seq<PageSeries>) -> Seq<Page>
    decreases ss.len(),
{
    if ss.len() == 0 {
        Seq::<Page>::empty()
    } else {
        ss[0].pages@ + all_pages(ss.drop_first())
    }
}

/// How many of the first `i` pages carry no title: the value of the
/// document-scoped fallback counter before page `i` is named.
pub open spec fn untitled_before(pages: Seq<Page>, i: int) -> int
    decreases i,
{
    if i <= 0 {
        0
    } else {
        untitled_before(pages, i - 1) + if pages[i - 1].title is None {
            1int
        } else {
            0int
        }
    }
}

/// One more page series appends its pages to the document's page list.
pub proof fn lemma_all_pages_snoc(ss: Seq<PageSeries>, s: PageSeries)
    ensures
        all_pages(ss.push(s)) == all_pages(ss) + s.pages@,
    decreases ss.len(),
{
    if ss.len() == 0 {
        assert(ss.push(s).drop_first() =~= Seq::<PageSeries>::empty());
        assert(ss.push(s)[0] == s);
        assert(all_pages(ss.push(s)) == s.pages@ + all_pages(Seq::<PageSeries>::empty()));
        assert(s.pages@ + Seq::<Page>::empty() =~= s.pages@);
        assert(all_pages(ss) + s.pages@ =~= s.pages@);
    } else {
        assert(ss.push(s).drop_first() =~= ss.drop_first().push(s));
        assert(ss.push(s)[0] == ss[0]);
        lemma_all_pages_snoc(ss.drop_first(), s);
        assert(ss[0].pages@ + (all_pages(ss.drop_first()) + s.pages@) =~= (ss[0].pages@
            + all_pages(ss.drop_first())) + s.pages@);
    }
}

/// Every page of a well-formed section's page list is well formed.
pub proof fn lemma_all_pages_wf(ss: Seq<PageSeries>)
    requires
        forall|i: int| 0 <= i < ss.len() ==> crate::model::wf_page_series(#[trigger] ss[i]),
    ensures
        forall|j: int| 0 <= j < all_pages(ss).len() ==> wf_page(#[trigger] all_pages(ss)[j]),
    decreases ss.len(),
{
    if ss.len() > 0 {
        lemma_all_pages_wf(ss.drop_first());
        assert(crate::model::wf_page_series(ss[0]));
        assert forall|j: int| 0 <= j < all_pages(ss).len() implies wf_page(
            #[trigger] all_pages(ss)[j],
        ) by {
            let head = ss[0].pages@;
            let rest = all_pages(ss.drop_first());
            if j < head.len() {
                assert(all_pages(ss)[j] == head[j]);
            } else {
                assert(all_pages(ss)[j] == rest[j - head.len()]);
            }
        }
    }
}

/// The display title of page `i`: its own title, or `Untitled Page N` with
/// the document-scoped counter.
pub open spec fn page_title(pages: Seq<Page>, i: int) -> Seq<char> {
    match pages[i].title {
        Some(t) => t@,
        None => untitled_seq(untitled_before(pages, i) + 1),
    }
}

/// The name a page contributes to its output file: the display title,
/// trimmed and with path separators replaced.
pub open spec fn page_file_title(pages: Seq<Page>, i: int) -> Seq<char> {
    page_name_seq(page_title(pages, i))
}

/// The raw (pre-sanitization) output name of page `i`: the source stem, a
/// separator, and the page's file title.
pub open spec fn raw_name(stem: Seq<char>, pages: Seq<Page>, i: int) -> Seq<char> {
    stem + seq![' ', '-', ' '] + page_file_title(pages, i)
}

/// The markup of pages `0 .. i` concatenated, in order.
pub open spec fn pages_text_up_to(pages: Seq<Page>, c: RenderConfig, i: int) -> Seq<char>
    decreases i,
{
    if i <= 0 {
        Seq::<char>::empty()
    } else {
        pages_text_up_to(pages, c, i - 1) + page_text(pages[i - 1], c)
    }
}

/// One finished output: the derived file name (without extension), the
/// name before filesystem sanitization, the plain markup, and the
/// compressed container carrying it.
pub struct OutputDoc {
    pub file_name: String,
    pub raw_name: String,
    pub xml: String,
    pub container: Vec<u8>,
}

/// The header comment every container carries.
pub open spec fn container_comment() -> Seq<char> {
    seq!['O', 'u', 't', 'p', 'u', 't', ' ', 'f', 'i', 'l', 'e']
}

/// What `output_file` promises of a finished output, given the raw page
/// markup it wrapped and the file name it was handed.
pub open spec fn output_doc_ok(doc: OutputDoc, page_xml: Seq<char>) -> bool {
    &&& doc.xml@ == document_text(page_xml)
    &&& doc.container@ == gzip_of(
        doc.file_name@ + seq!['.', 'x', 'm', 'l'],
        container_comment(),
        document_text(page_xml),
    )
}

/// Wraps concatenated page markup in the fixed document envelope and
/// serializes it into the compressed container, whose embedded metadata
/// (internal file name and comment) matches what the downstream consumer
/// expects.
pub fn output_file(page_xml: String, file_name: String) -> (r: OutputDoc)
    requires
        !file_name@.contains('\0'),
    ensures
        r.file_name == file_name,
        r.raw_name == file_name,
        output_doc_ok(r, page_xml@),
{
    let mut file_output = String::new();
    file_output.append(
        "<?xml version=\"1.0\" standalone=\"no\"?>\n        <xournal creator=\"Xournal++ 1.1.3\" fileversion=\"4\">\n        <title>Xournal++ document - see https://github.com/xournalpp/xournalpp</title>\n",
    );
    proof {
        assert(file_output@ =~=
            "<?xml version=\"1.0\" standalone=\"no\"?>\n        <xournal creator=\"Xournal++ 1.1.3\" fileversion=\"4\">\n        <title>Xournal++ document - see https://github.com/xournalpp/xournalpp</title>\n"@);
    }
    file_output.append(page_xml.as_str());
    file_output.append("</xournal>");
    proof {
        assert(file_output@ == document_text(page_xml@));
    }
    let mut inner_name = file_name.clone();
    inner_name.push('.');
    inner_name.push('x');
    inner_name.push('m');
    inner_name.push('l');
    proof {
        assert(inner_name@ =~= file_name@ + seq!['.', 'x', 'm', 'l']);
        assert(!inner_name@.contains('\0')) by {
            assert(forall|i: int| 0 <= i < file_name@.len() ==> inner_name@[i] == file_name@[i]);
        }
    }
    let mut comment = String::new();
    comment.push('O');
    comment.push('u');
    comment.push('t');
    comment.push('p');
    comment.push('u');
    comment.push('t');
    comment.push(' ');
    comment.push('f');
    comment.push('i');
    comment.push('l');
    comment.push('e');
    proof {
        assert(comment@ =~= container_comment());
        assert(!comment@.contains('\0'));
    }
    let container = gzip_container(&inner_name, &comment, &file_output);
    let raw_name = file_name.clone();
    OutputDoc { file_name, raw_name, xml: file_output, container }
}

/// Builds the display title of one page as characters: the model title if
/// present, else `Untitled Page N` for the given counter value.
fn title_chars(title: &Option<Vec<char>>, counter: u128) -> (r: Vec<char>)
    ensures
        r@ == match *title {
            Some(t) => t@,
            None => untitled_seq(counter as int),
        },
{
    match title {
        Some(t) => {
            let mut r: Vec<char> = Vec::new();
            let mut i: usize = 0;
            while i < t.len()
                invariant
                    i <= t@.len(),
                    r@ == t@.subrange(0, i as int),
                decreases t@.len() - i,
            {
                r.push(t[i]);
                proof {
                    assert(r@ =~= t@.subrange(0, i as int + 1));
                }
                i = i + 1;
            }
            proof {
                assert(r@ =~= t@);
            }
            r
        },
        None => {
            let mut r: Vec<char> = Vec::new();
            r.push('U');
            r.push('n');
            r.push('t');
            r.push('i');
            r.push('t');
            r.push('l');
            r.push('e');
            r.push('d');
            r.push(' ');
            r.push('P');
            r.push('a');
            r.push('g');
            r.push('e');
            r.push(' ');
            proof {
                assert(r@ =~= seq!['U', 'n', 't', 'i', 't', 'l', 'e', 'd', ' ', 'P', 'a', 'g',
                    'e', ' ']);
            }
            push_dec_chars(&mut r, counter);
            r
        },
    }
}

/// Gathers every page of a section in document order.
#[verifier::loop_isolation(false)]
fn collect_pages<'a>(section: &'a Section) -> (r: Vec<&'a Page>)
    ensures
        r@.len() == all_pages(section.page_series@).len(),
        forall|j: int| 0 <= j < r@.len() ==> *r@[j] == all_pages(section.page_series@)[j],
{
    let ghost ss = section.page_series@;
    let mut r: Vec<&'a Page> = Vec::new();
    proof {
        assert(ss.subrange(0, 0) =~= Seq::<PageSeries>::empty());
    }
    let mut si: usize = 0;
    while si < section.page_series.len()
        invariant
            si <= ss.len(),
            r@.len() == all_pages(ss.subrange(0, si as int)).len(),
            forall|j: int| 0 <= j < r@.len() ==> *r@[j] == all_pages(
                ss.subrange(0, si as int),
            )[j],
        decreases ss.len() - si,
    {
        let ghost prefix = ss.subrange(0, si as int);
        let ghost plen = all_pages(prefix).len() as int;
        let series = &section.page_series[si];
        let mut pi: usize = 0;
        while pi < series.pages.len()
            invariant
                pi <= series.pages@.len(),
                r@.len() == plen + pi,
                forall|j: int| 0 <= j < plen ==> *r@[j] == all_pages(prefix)[j],
                forall|k: int| 0 <= k < pi ==> *r@[plen + k] == series.pages@[k],
            decreases series.pages@.len() - pi,
        {
            r.push(&series.pages[pi]);
            pi = pi + 1;
        }
        proof {
            assert(ss.subrange(0, si as int + 1) =~= prefix.push(ss[si as int]));
            lemma_all_pages_snoc(prefix, ss[si as int]);
            let whole = all_pages(prefix) + ss[si as int].pages@;
            assert forall|j: int| 0 <= j < r@.len() implies *r@[j] == all_pages(
                ss.subrange(0, si as int + 1),
            )[j] by {
                assert(all_pages(ss.subrange(0, si as int + 1)) == whole);
                if j < plen {
                    assert(whole[j] == all_pages(prefix)[j]);
                } else {
                    assert(whole[j] == ss[si as int].pages@[j - plen]);
                }
            }
        }
        si = si + 1;
    }
    proof {
        assert(ss.subrange(0, ss.len() as int) =~= ss);
    }
    r
}

/// Renders a whole parsed source document into its outputs. Pages render
/// independently; only the document-scoped title-fallback counter is
/// shared, assigned in document order. In split mode every page becomes one
/// output named `stem - title` (sanitized); in aggregate mode the
/// concatenated pages become a single output named after the source stem.
#[verifier::spinoff_prover]
#[verifier::rlimit(100)]
#[verifier::loop_isolation(false)]
pub fn render_section(section: &Section, file_stem: &Vec<char>, cfg: &RenderConfig) -> (r: Vec<
    OutputDoc,
>)
    requires
        wf_section(*section),
        cfg.wf(),
        !file_stem@.contains('\0'),
    ensures
        cfg.aggregate_pages ==> r@.len() == 1,
        cfg.aggregate_pages ==> r@[0].file_name@ == file_stem@,
        cfg.aggregate_pages ==> output_doc_ok(
            r@[0],
            pages_text_up_to(
                all_pages(section.page_series@),
                *cfg,
                all_pages(section.page_series@).len() as int,
            ),
        ),
        !cfg.aggregate_pages ==> r@.len() == all_pages(section.page_series@).len(),
        !cfg.aggregate_pages ==> forall|i: int|
            0 <= i < r@.len() ==> output_doc_ok(
                #[trigger] r@[i],
                page_text(all_pages(section.page_series@)[i], *cfg),
            ),
        !cfg.aggregate_pages ==> forall|i: int|
            0 <= i < r@.len() ==> crate::bridge::sanitized_ok((#[trigger] r@[i]).file_name@),
        !cfg.aggregate_pages ==> forall|i: int|
            0 <= i < r@.len() ==> (#[trigger] r@[i]).raw_name@ == raw_name(
                file_stem@,
                all_pages(section.page_series@),
                i,
            ),
        cfg.aggregate_pages ==> r@[0].raw_name@ == file_stem@,
{
    let ghost pages_all = all_pages(section.page_series@);
    proof {
        lemma_all_pages_wf(section.page_series@);
    }
    let flat = collect_pages(section);
    let mut docs: Vec<OutputDoc> = Vec::new();
    let mut pages_cache = String::new();
    let mut counter: u128 = 0;
    let mut i: usize = 0;
    while i < flat.len()
        invariant
            i <= pages_all.len(),
            counter as int == untitled_before(pages_all, i as int),
            counter <= i,
            cfg.aggregate_pages ==> docs@.len() == 0,
            cfg.aggregate_pages ==> pages_cache@ == pages_text_up_to(pages_all, *cfg, i as int),
            !cfg.aggregate_pages ==> docs@.len() == i,
            !cfg.aggregate_pages ==> forall|j: int|
                0 <= j < docs@.len() ==> output_doc_ok(
                    #[trigger] docs@[j],
                    page_text(pages_all[j], *cfg),
                ),
            !cfg.aggregate_pages ==> forall|j: int|
                0 <= j < docs@.len() ==> crate::bridge::sanitized_ok(
                    (#[trigger] docs@[j]).file_name@,
                ),
            !cfg.aggregate_pages ==> forall|j: int|
                0 <= j < docs@.len() ==> (#[trigger] docs@[j]).raw_name@ == raw_name(
                    file_stem@,
                    pages_all,
                    j,
                ),
        decreases flat@.len() - i,
    {
        let page = flat[i];
        proof {
            assert(*page == pages_all[i as int]);
            assert(wf_page(pages_all[i as int]));
        }
        let name_chars: Vec<char> = match &page.title {
            Some(_) => title_chars(&page.title, 0),
            None => {
                counter = counter + 1;
                title_chars(&page.title, counter)
            },
        };
        proof {
            assert(name_chars@ == page_title(pages_all, i as int));
        }
        let page_xml = render_page(page, cfg);
        if !cfg.aggregate_pages {
            let file_title = page_name_chars(&name_chars);
            let mut raw = String::new();
            push_chars(&mut raw, file_stem);
            raw.push(' ');
            raw.push('-');
            raw.push(' ');
            push_chars(&mut raw, &file_title);
            proof {
                assert(raw@ =~= raw_name(file_stem@, pages_all, i as int));
            }
            let file_name = sanitize_name(&raw);
            proof {
                assert(!file_name@.contains('\0')) by {
                    assert forall|k: int| 0 <= k < file_name@.len() implies file_name@[k]
                        != '\0' by {
                        assert(crate::bridge::ok_name_char(file_name@[k]));
                        assert('\0' as int == 0);
                    }
                }
            }
            let mut doc = output_file(page_xml, file_name);
            doc.raw_name = raw;
            docs.push(doc);
        } else {
            pages_cache.append(page_xml.as_str());
        }
        i = i + 1;
    }
    if cfg.aggregate_pages {
        let mut file_name = String::new();
        push_chars(&mut file_name, file_stem);
        proof {
            assert(file_name@ =~= file_stem@);
        }
        let doc = output_file(pages_cache, file_name);
        docs.push(doc);
    }
    docs
}

} // verus!
