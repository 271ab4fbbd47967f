//! Guides: markdown documents that ship with an application.
use crate::sorting;
use crate::text;
use vstd::prelude::*;
use vstd::string::*;

verus! {

/// Parsed guide document.
#[derive(Debug, PartialEq, Eq)]
pub struct GuideEntry {
    /// Topic name, usually the markdown filename without `.md`.
    pub name: String,
    /// One-line summary from front matter.
    pub summary: String,
    /// Markdown body without front matter.
    pub content: String,
}

/// What a guide says: its name, its summary and its content.
#[verifier::ext_equal]
pub struct GuideText {
    /// Topic name.
    pub name: Seq<char>,
    /// One-line summary.
    pub summary: Seq<char>,
    /// Markdown body.
    pub content: Seq<char>,
}

impl View for GuideEntry {
    type V = GuideText;

    open spec fn view(&self) -> GuideText {
        GuideText { name: self.name@, summary: self.summary@, content: self.content@ }
    }
}

/// What each guide of a list says.
pub open spec fn guide_texts(entries: Seq<GuideEntry>) -> Seq<GuideText> {
    Seq::new(entries.len(), |i: int| entries[i]@)
}

/// The place of the last path separator, or -1.
pub open spec fn last_separator(path: Seq<char>) -> int
    decreases path.len(),
{
    if path.len() == 0 {
        -1
    } else if path.last() == '/' || path.last() == '\\' {
        path.len() - 1
    } else {
        last_separator(path.drop_last())
    }
}

/// The topic of a markdown file: its file name without `.md`.
pub open spec fn topic_of(path: Seq<char>) -> Seq<char> {
    let name = path.skip(last_separator(path) + 1);
    if ".md"@.is_suffix_of(name) {
        name.take(name.len() - ".md"@.len())
    } else {
        name
    }
}

/// The place at which `needle` first stands in `s`, from `i` on.
pub open spec fn first_occurrence(s: Seq<char>, needle: Seq<char>, i: int) -> int
    decreases s.len() - i + 1,
{
    if i < 0 || i + needle.len() > s.len() || text::occurs_at(s, needle, i) {
        i
    } else {
        first_occurrence(s, needle, i + 1)
    }
}

/// The summary that a block of front matter gives: the last line that begins
/// with `summary:`.
pub open spec fn summary_in(lines: Seq<Seq<char>>) -> Seq<char>
    decreases lines.len(),
{
    if lines.len() == 0 {
        Seq::empty()
    } else if "summary:"@.is_prefix_of(lines.last()) {
        text::trim_spec(lines.last().skip("summary:"@.len() as int))
    } else {
        summary_in(lines.drop_last())
    }
}

/// Summary and body of a document. Front matter stands between a first line
/// `---` and the next line `---`; a document without it is all body.
pub open spec fn front_matter_spec(content: Seq<char>) -> (Seq<char>, Seq<char>) {
    let open = "---\n"@;
    let close = "\n---\n"@;
    if !open.is_prefix_of(content) {
        (Seq::empty(), content)
    } else {
        let rest = content.skip(open.len() as int);
        if !text::contains_text(rest, close) {
            (Seq::empty(), content)
        } else {
            let end = first_occurrence(rest, close, 0);
            (
                summary_in(text::split_spec(rest.take(end), '\n')),
                rest.skip(end + close.len()),
            )
        }
    }
}

/// A first occurrence is where the search for it ends.
proof fn lemma_first_occurrence(s: Seq<char>, needle: Seq<char>, i: int, at: int)
    requires
        0 <= i <= at,
        text::occurs_at(s, needle, at),
        forall|k: int| i <= k < at ==> !text::occurs_at(s, needle, k),
    ensures
        first_occurrence(s, needle, i) == at,
    decreases at - i,
{
    if i < at {
        lemma_first_occurrence(s, needle, i + 1, at);
    }
}

/// Parses optional front matter and returns the summary and the body.
pub fn parse_front_matter(content: &str) -> (r: (String, String))
    ensures
        (r.0@, r.1@) == front_matter_spec(content@),
{
    let rest = match text::strip_prefix(content, "---\n") {
        Some(rest) => rest,
        None => {
            return (String::new(), content.to_owned());
        },
    };
    let end: usize = match text::find_str(rest.as_str(), "\n---\n") {
        Some(end) => end,
        None => {
            return (String::new(), content.to_owned());
        },
    };
    proof {
        lemma_first_occurrence(rest@, "\n---\n"@, 0, end as int);
        assert(text::contains_text(rest@, "\n---\n"@));
        reveal_strlit("\n---\n");
    }
    let v = text::chars_of(rest.as_str());
    assert(end + 5 <= v.len());
    let block = text::substring_of(&v, 0, end);
    let body = text::substring_of(&v, end + 5, v.len());
    assert(block@ =~= rest@.take(end as int));
    assert(body@ =~= rest@.skip(end + 5));
    let lines = text::split_char(block.as_str(), '\n');
    let ghost all = text::texts(lines@);
    let mut n: usize = lines.len();
    assert(all.take(n as int) =~= all);
    while n > 0
        invariant
            n <= lines@.len(),
            all == text::texts(lines@),
            summary_in(all) == summary_in(all.take(n as int)),
            front_matter_spec(content@) == (summary_in(all), body@),
        decreases n,
    {
        assert(all.take(n as int).drop_last() =~= all.take(n - 1));
        if let Some(value) = text::strip_prefix(lines[n - 1].as_str(), "summary:") {
            return (text::trim(value.as_str()), body);
        }
        n = n - 1;
    }
    (String::new(), body)
}

impl GuideEntry {
    /// Creates a guide entry from explicit topic metadata and markdown content.
    pub fn new(name: String, summary: String, content: String) -> (r: Self)
        ensures
            r == (GuideEntry { name, summary, content }),
    {
        GuideEntry { name, summary, content }
    }

    /// Parses a guide entry from a markdown path and content.
    pub fn from_markdown_path(path: &str, content: &str) -> (r: Self)
        ensures
            r@ == markdown_guide(path@, content@),
    {
        let v = text::chars_of(path);
        let mut n: usize = v.len();
        assert(v@.take(n as int) =~= v@);
        while n > 0 && v[n - 1] != '/' && v[n - 1] != '\\'
            invariant
                n <= v@.len(),
                last_separator(v@) == last_separator(v@.take(n as int)),
            decreases n,
        {
            assert(v@.take(n as int).drop_last() =~= v@.take(n - 1));
            n = n - 1;
        }
        let file_name = text::substring_of(&v, n, v.len());
        assert(file_name@ =~= path@.skip(last_separator(path@) + 1));
        let name = match text::strip_suffix(file_name.as_str(), ".md") {
            Some(name) => name,
            None => file_name,
        };
        let (summary, content) = parse_front_matter(content);
        GuideEntry { name, summary, content }
    }

    /// Copies the guide.
    pub fn copy(&self) -> (r: Self)
        ensures
            r@ == self@,
    {
        GuideEntry {
            name: self.name.clone(),
            summary: self.summary.clone(),
            content: self.content.clone(),
        }
    }
}

/// The guide of a markdown file.
pub open spec fn markdown_guide(path: Seq<char>, content: Seq<char>) -> GuideText {
    GuideText {
        name: topic_of(path),
        summary: front_matter_spec(content).0,
        content: front_matter_spec(content).1,
    }
}

/// The text that bytes stand for, with U+FFFD for what is not UTF-8.
pub uninterp spec fn lossy_text(bytes: Seq<u8>) -> Seq<char>;

/// `String::from_utf8_lossy` of std: the result is a function of the bytes, and
/// of the bytes of a text it is that text.
#[verifier::external_body]
pub(crate) fn decode_lossy(bytes: &Vec<u8>) -> (r: String)
    ensures
        r@ == lossy_text(bytes@),
        forall|s: Seq<char>| bytes@ == #[trigger] vstd::utf8::encode_utf8(s) ==> r@ == s,
{
    String::from_utf8_lossy(bytes).into_owned()
}

/// The paths of the files that are markdown.
pub open spec fn markdown_files(files: Seq<(String, Vec<u8>)>) -> Seq<(Seq<char>, Seq<u8>)>
    decreases files.len(),
{
    if files.len() == 0 {
        Seq::empty()
    } else if ".md"@.is_suffix_of(files.last().0@) {
        markdown_files(files.drop_last()).push((files.last().0@, files.last().1@))
    } else {
        markdown_files(files.drop_last())
    }
}

/// The paths of a list of files.
pub open spec fn file_paths(files: Seq<(Seq<char>, Seq<u8>)>) -> Seq<Seq<char>> {
    Seq::new(files.len(), |i: int| files[i].0)
}

/// The guides are those of the markdown files, in the order of the paths.
pub open spec fn are_markdown_guides(guides: Seq<GuideText>, files: Seq<(String, Vec<u8>)>) -> bool {
    let kept = markdown_files(files);
    exists|order: Seq<usize>|
        {
            &&& #[trigger] sorting::is_sorted_order(order, file_paths(kept), file_paths(kept))
            &&& guides == Seq::new(
                order.len(),
                |i: int|
                    markdown_guide(
                        kept[order[i] as int].0,
                        lossy_text(kept[order[i] as int].1),
                    ),
            )
        }
}

/// What each file says: its path and its bytes.
pub open spec fn file_texts(files: Seq<(String, Vec<u8>)>) -> Seq<(Seq<char>, Seq<u8>)> {
    Seq::new(files.len(), |i: int| (files[i].0@, files[i].1@))
}

/// The markdown files are those of the files whose path ends in `.md`.
proof fn lemma_markdown_files(files: Seq<(String, Vec<u8>)>, f: (Seq<char>, Seq<u8>))
    ensures
        markdown_files(files).contains(f) <==> ".md"@.is_suffix_of(f.0) && file_texts(
            files,
        ).contains(f),
    decreases files.len(),
{
    let texts = file_texts(files);
    let kept = markdown_files(files);
    if files.len() > 0 {
        let rest = files.drop_last();
        lemma_markdown_files(rest, f);
        assert(texts.drop_last() =~= file_texts(rest));
        assert(texts.contains(f) <==> file_texts(rest).contains(f) || f == texts.last()) by {
            if texts.contains(f) {
                let i = choose|i: int| 0 <= i < texts.len() && texts[i] == f;
                if i < rest.len() {
                    assert(file_texts(rest)[i] == f);
                }
            }
            if file_texts(rest).contains(f) {
                let i = choose|i: int| 0 <= i < rest.len() && file_texts(rest)[i] == f;
                assert(texts[i] == f);
            }
            assert(texts[texts.len() - 1] == texts.last());
        }
        if ".md"@.is_suffix_of(files.last().0@) {
            let before = markdown_files(rest);
            assert(kept == before.push(texts.last()));
            if kept.contains(f) {
                let i = choose|i: int| 0 <= i < kept.len() && kept[i] == f;
                if i < before.len() {
                    assert(before[i] == f);
                }
            }
            if before.contains(f) {
                let i = choose|i: int| 0 <= i < before.len() && before[i] == f;
                assert(kept[i] == f);
            }
            assert(kept[kept.len() - 1] == texts.last());
        }
    }
}

/// No two of the files have the same path.
pub open spec fn are_distinct_files(files: Seq<(Seq<char>, Seq<u8>)>) -> bool {
    forall|i: int, j: int|
        0 <= i < j < files.len() ==> (#[trigger] files[i]).0 != (#[trigger] files[j]).0
}

/// Neither have two of the markdown files among them.
proof fn lemma_markdown_distinct(files: Seq<(String, Vec<u8>)>)
    requires
        are_distinct_files(file_texts(files)),
    ensures
        are_distinct_files(markdown_files(files)),
    decreases files.len(),
{
    if files.len() > 0 {
        let rest = files.drop_last();
        let texts = file_texts(files);
        assert forall|i: int, j: int| 0 <= i < j < rest.len() implies (#[trigger] file_texts(
            rest,
        )[i]).0 != (#[trigger] file_texts(rest)[j]).0 by {
            assert(texts[i].0 != texts[j].0);
        }
        lemma_markdown_distinct(rest);
        let before = markdown_files(rest);
        let kept = markdown_files(files);
        assert forall|i: int, j: int| 0 <= i < j < kept.len() implies (#[trigger] kept[i]).0
            != (#[trigger] kept[j]).0 by {
            if j < before.len() {
                assert(before[i].0 != before[j].0);
            } else {
                lemma_markdown_files(rest, before[i]);
                assert(before.contains(before[i]));
                let k = choose|k: int|
                    0 <= k < rest.len() && file_texts(rest)[k] == before[i];
                assert(texts[k].0 != texts[files.len() - 1].0);
            }
        }
    }
}

/// A file comes before another.
pub open spec fn file_before(a: (Seq<char>, Seq<u8>), b: (Seq<char>, Seq<u8>)) -> bool {
    sorting::pair_before((a.0, a.0), (b.0, b.0))
}

/// The files in the order of their paths ascend.
proof fn lemma_files_ascend(kept: Seq<(Seq<char>, Seq<u8>)>, order: Seq<usize>)
    requires
        are_distinct_files(kept),
        sorting::is_sorted_order(order, file_paths(kept), file_paths(kept)),
    ensures
        sorting::is_ascending(
            sorting::reordered(kept, order),
            |a: (Seq<char>, Seq<u8>), b: (Seq<char>, Seq<u8>)| file_before(a, b),
        ),
{
    let sorted = sorting::reordered(kept, order);
    let less = |a: (Seq<char>, Seq<u8>), b: (Seq<char>, Seq<u8>)| file_before(a, b);
    assert forall|i: int, j: int| 0 <= i < j < kept.len() implies #[trigger] file_paths(kept)[i]
        != #[trigger] file_paths(kept)[j] by {
        assert(kept[i].0 != kept[j].0);
    }
    assert(sorting::are_distinct(file_paths(kept), file_paths(kept)));
    assert forall|i: int, j: int| 0 <= i < j < sorted.len() implies less(
        #[trigger] sorted[i],
        #[trigger] sorted[j],
    ) by {
        sorting::lemma_keys_ascend(order, file_paths(kept), file_paths(kept), i, j);
    }
}

/// Where no two files have the same path, the order in which they are given
/// does not matter for the guides.
pub proof fn law_order_of_files_does_not_matter(
    one: Seq<GuideText>,
    two: Seq<GuideText>,
    files: Seq<(String, Vec<u8>)>,
    others: Seq<(String, Vec<u8>)>,
    p: Seq<usize>,
)
    requires
        are_distinct_files(file_texts(files)),
        sorting::lists_places(p, files.len() as int),
        file_texts(others) == sorting::reordered(file_texts(files), p),
        are_markdown_guides(one, files),
        are_markdown_guides(two, others),
    ensures
        one == two,
{
    let x = markdown_files(files);
    let y = markdown_files(others);
    let texts = file_texts(files);
    assert(file_texts(others).len() == p.len());
    assert forall|i: int, j: int| 0 <= i < j < others.len() implies (#[trigger] file_texts(
        others,
    )[i]).0 != (#[trigger] file_texts(others)[j]).0 by {
        let k = p[i] as int;
        let m = p[j] as int;
        assert(k != m);
        if k < m {
            assert(texts[k].0 != texts[m].0);
        } else {
            assert(texts[m].0 != texts[k].0);
        }
    }
    lemma_markdown_distinct(files);
    lemma_markdown_distinct(others);
    let a = choose|order: Seq<usize>|
        #[trigger] sorting::is_sorted_order(order, file_paths(x), file_paths(x)) && one
            == Seq::new(
            order.len(),
            |i: int| markdown_guide(x[order[i] as int].0, lossy_text(x[order[i] as int].1)),
        );
    let b = choose|order: Seq<usize>|
        #[trigger] sorting::is_sorted_order(order, file_paths(y), file_paths(y)) && two
            == Seq::new(
            order.len(),
            |i: int| markdown_guide(y[order[i] as int].0, lossy_text(y[order[i] as int].1)),
        );
    lemma_files_ascend(x, a);
    lemma_files_ascend(y, b);
    let less = |f: (Seq<char>, Seq<u8>), g: (Seq<char>, Seq<u8>)| file_before(f, g);
    assert forall|f: (Seq<char>, Seq<u8>), g: (Seq<char>, Seq<u8>)| #[trigger] less(
        f,
        g,
    ) implies !less(
        g,
        f,
    ) by {
        sorting::lemma_pair_before_asymmetric((f.0, f.0), (g.0, g.0));
    }
    assert forall|f: (Seq<char>, Seq<u8>)| sorting::reordered(x, a).contains(f)
        <==> sorting::reordered(y, b).contains(f) by {
        sorting::lemma_reordered_items(x, a, f);
        sorting::lemma_reordered_items(y, b, f);
        sorting::lemma_reordered_items(texts, p, f);
        lemma_markdown_files(files, f);
        lemma_markdown_files(others, f);
    }
    sorting::lemma_one_ascending(sorting::reordered(x, a), sorting::reordered(y, b), less);
    assert(one.len() == two.len()) by {
        assert(sorting::reordered(x, a).len() == sorting::reordered(y, b).len());
    }
    assert forall|i: int| 0 <= i < one.len() implies one[i] == two[i] by {
        assert(sorting::reordered(x, a)[i] == sorting::reordered(y, b)[i]);
    }
    assert(one =~= two);
}

/// Parses guide entries from pairs of a path and its bytes: one for each
/// markdown file, in the order of the paths.
pub fn parse_guides_from_markdown(files: &Vec<(String, Vec<u8>)>) -> (r: Vec<GuideEntry>)
    ensures
        are_markdown_guides(guide_texts(r@), files@),
{
    let ghost kept = markdown_files(files@);
    let mut paths: Vec<String> = Vec::new();
    let mut places: Vec<usize> = Vec::new();
    let mut i: usize = 0;
    while i < files.len()
        invariant
            i <= files@.len(),
            paths@.len() == places@.len(),
            paths@.len() == markdown_files(files@.take(i as int)).len(),
            forall|k: int|
                0 <= k < paths@.len() ==> {
                    &&& (#[trigger] places@[k]) < i
                    &&& markdown_files(files@.take(i as int))[k] == (
                        files@[places@[k] as int].0@,
                        files@[places@[k] as int].1@,
                    )
                    &&& paths@[k]@ == markdown_files(files@.take(i as int))[k].0
                },
        decreases files@.len() - i,
    {
        assert(files@.take(i + 1).drop_last() =~= files@.take(i as int));
        if text::ends_with(files[i].0.as_str(), ".md") {
            paths.push(files[i].0.clone());
            places.push(i);
        }
        i = i + 1;
    }
    assert(files@.take(files@.len() as int) =~= files@);
    assert forall|k: int| 0 <= k < kept.len() implies text::texts(paths@)[k] == file_paths(
        kept,
    )[k] by {
        assert(places@[k] < files@.len());
    }
    assert(text::texts(paths@) =~= file_paths(kept));
    let order = sorting::sorted_order(&paths, &paths);
    let mut r: Vec<GuideEntry> = Vec::new();
    let mut j: usize = 0;
    while j < order.len()
        invariant
            kept == markdown_files(files@),
            j <= order@.len(),
            sorting::is_sorted_order(order@, file_paths(kept), file_paths(kept)),
            paths@.len() == places@.len(),
            paths@.len() == kept.len(),
            forall|k: int|
                0 <= k < kept.len() ==> {
                    &&& (#[trigger] places@[k]) < files@.len()
                    &&& kept[k] == (files@[places@[k] as int].0@, files@[places@[k] as int].1@)
                },
            r@.len() == j,
            forall|k: int|
                0 <= k < j ==> (#[trigger] r@[k])@ == markdown_guide(
                    kept[order@[k] as int].0,
                    lossy_text(kept[order@[k] as int].1),
                ),
        decreases order@.len() - j,
    {
        assert(order@[j as int] < kept.len());
        let at: usize = places[order[j]];
        let content = decode_lossy(&files[at].1);
        r.push(GuideEntry::from_markdown_path(files[at].0.as_str(), content.as_str()));
        j = j + 1;
    }
    assert(guide_texts(r@) =~= Seq::new(
        order@.len(),
        |i: int|
            markdown_guide(kept[order@[i] as int].0, lossy_text(kept[order@[i] as int].1)),
    ));
    r
}

/// One line for each topic.
pub open spec fn topic_lines(entries: Seq<GuideText>) -> Seq<char>
    decreases entries.len(),
{
    if entries.len() == 0 {
        Seq::empty()
    } else {
        topic_lines(entries.drop_last()) + "  "@ + text::pad_spec(entries.last().name, 16) + " "@
            + entries.last().summary + "\n"@
    }
}

/// The list of topics.
pub open spec fn topic_list(entries: Seq<GuideText>) -> Seq<char> {
    "Available guide topics:\n\n"@ + topic_lines(entries) + "\nUsage: <cli> guide <topic>"@
}

/// Renders the guide topic list.
pub fn list_guides(entries: &Vec<GuideEntry>) -> (r: String)
    ensures
        r@ == topic_list(guide_texts(entries@)),
{
    let ghost all = guide_texts(entries@);
    let mut out = "Available guide topics:\n\n".to_owned();
    let mut i: usize = 0;
    assert("Available guide topics:\n\n"@ + topic_lines(all.take(0))
        =~= "Available guide topics:\n\n"@);
    while i < entries.len()
        invariant
            i <= entries@.len(),
            all == guide_texts(entries@),
            out@ == "Available guide topics:\n\n"@ + topic_lines(all.take(i as int)),
        decreases entries@.len() - i,
    {
        let ghost before = out@;
        assert(all.take(i + 1).drop_last() =~= all.take(i as int));
        out.append("  ");
        out.append(text::pad(entries[i].name.as_str(), 16).as_str());
        out.append(" ");
        out.append(entries[i].summary.as_str());
        out.append("\n");
        i = i + 1;
        assert(out@ =~= "Available guide topics:\n\n"@ + topic_lines(all.take(i as int)));
    }
    assert(all.take(entries@.len() as int) =~= all);
    out.append("\nUsage: <cli> guide <topic>");
    out
}

/// The names of the guides.
pub open spec fn topics(entries: Seq<GuideText>) -> Seq<Seq<char>> {
    Seq::new(entries.len(), |i: int| entries[i].name)
}

/// The content of the last guide on a topic.
pub open spec fn last_on(entries: Seq<GuideText>, topic: Seq<char>) -> Option<Seq<char>>
    decreases entries.len(),
{
    if entries.len() == 0 {
        None
    } else if entries.last().name == topic {
        Some(entries.last().content)
    } else {
        last_on(entries.drop_last(), topic)
    }
}

/// `r` is the list of topics, or the content of the guide on a topic.
pub open spec fn is_content(
    r: Result<String, String>,
    entries: Seq<GuideText>,
    topic: Option<Seq<char>>,
) -> bool {
    match topic {
        None => r matches Ok(out) && out@ == topic_list(entries),
        Some(name) => match last_on(entries, name) {
            Some(content) => r matches Ok(out) && out@ == content,
            None => r matches Err(m) && m@ == "unknown guide topic "@ + text::debug_quoted(name)
                + " — valid topics: "@ + text::join_spec(topics(entries), ", "@),
        },
    }
}

/// Returns either the guide topic list or one guide's content.
pub fn guide_content(entries: &Vec<GuideEntry>, topic: Option<&str>) -> (r: Result<String, String>)
    ensures
        is_content(
            r,
            guide_texts(entries@),
            (match topic {
                Some(name) => Some(name@),
                None => None,
            }),
        ),
{
    let name = match topic {
        None => {
            return Ok(list_guides(entries));
        },
        Some(name) => name,
    };
    let ghost all = guide_texts(entries@);
    let mut n: usize = entries.len();
    assert(all.take(n as int) =~= all);
    while n > 0
        invariant
            n <= entries@.len(),
            all == guide_texts(entries@),
            topic == Some(name),
            last_on(all, name@) == last_on(all.take(n as int), name@),
        decreases n,
    {
        assert(all.take(n as int).drop_last() =~= all.take(n - 1));
        if text::str_eq(entries[n - 1].name.as_str(), name) {
            return Ok(entries[n - 1].content.clone());
        }
        n = n - 1;
    }
    let mut names: Vec<String> = Vec::new();
    let mut i: usize = 0;
    while i < entries.len()
        invariant
            i <= entries@.len(),
            all == guide_texts(entries@),
            text::texts(names@) == topics(all).take(i as int),
        decreases entries@.len() - i,
    {
        let ghost before = text::texts(names@);
        names.push(entries[i].name.clone());
        i = i + 1;
        assert(text::texts(names@) =~= before.push(all[i - 1].name));
        assert(topics(all).take(i as int) =~= topics(all).take(i - 1).push(all[i - 1].name));
    }
    assert(topics(all).take(entries@.len() as int) =~= topics(all));
    let mut m = "unknown guide topic ".to_owned();
    m.append(text::debug_text(name).as_str());
    m.append(" — valid topics: ");
    m.append(text::join(&names, ", ").as_str());
    Err(m)
}

/// The topic of a guide is the name of its file, without its folder and without
/// the ending of markdown files.
pub proof fn law_topic_is_the_file_name(folder: Seq<char>, name: Seq<char>)
    requires
        !name.contains('/'),
        !name.contains('\\'),
    ensures
        topic_of(folder + "/"@ + name + ".md"@) == name,
        topic_of(name + ".md"@) == name,
        !(".md"@.is_suffix_of(name)) ==> topic_of(folder + "/"@ + name) == name,
{
    reveal_strlit("/");
    reveal_strlit(".md");
    let file = name + ".md"@;
    lemma_no_separator(name, ".md"@);
    lemma_last_separator(folder + "/"@, file);
    lemma_last_separator(folder + "/"@, name);
    assert(folder + "/"@ + name + ".md"@ =~= (folder + "/"@) + file);
    assert(((folder + "/"@) + file).skip((folder + "/"@).len() as int) =~= file);
    assert(((folder + "/"@) + name).skip((folder + "/"@).len() as int) =~= name);
    assert(file.subrange(file.len() - 3, file.len() as int) =~= ".md"@);
    assert(file.take(file.len() - ".md"@.len()) =~= name);
    lemma_last_separator(Seq::empty(), file);
    assert(Seq::<char>::empty() + file =~= file);
    assert(file.skip(0) =~= file);
}

proof fn lemma_no_separator(name: Seq<char>, tail: Seq<char>)
    requires
        !name.contains('/'),
        !name.contains('\\'),
        !tail.contains('/'),
        !tail.contains('\\'),
    ensures
        !(name + tail).contains('/'),
        !(name + tail).contains('\\'),
{
    let all = name + tail;
    assert forall|i: int| 0 <= i < all.len() implies all[i] != '/' && all[i] != '\\' by {
        if i < name.len() {
            assert(name.contains(name[i]));
        } else {
            assert(tail.contains(tail[i - name.len()]));
        }
    }
}

proof fn lemma_last_separator(folder: Seq<char>, name: Seq<char>)
    requires
        folder.len() == 0 || folder.last() == '/',
        !name.contains('/'),
        !name.contains('\\'),
    ensures
        last_separator(folder + name) == folder.len() - 1,
    decreases name.len(),
{
    let path = folder + name;
    if name.len() == 0 {
        assert(path =~= folder);
    } else {
        assert(path.last() == name.last());
        assert(name.contains(name[name.len() - 1]));
        assert(path.drop_last() =~= folder + name.drop_last());
        assert forall|c: char| name.drop_last().contains(c) implies name.contains(c) by {
            let i = choose|i: int| 0 <= i < name.drop_last().len() && name.drop_last()[i] == c;
            assert(name[i] == c);
        }
        lemma_last_separator(folder, name.drop_last());
    }
}

/// Front matter gives its summary, and what stands behind it is the body. A
/// document that does not begin with it is all body and has no summary.
pub proof fn law_front_matter_is_taken_off(head: Seq<char>, body: Seq<char>, content: Seq<char>)
    requires
        forall|i: int|
            0 <= i < head.len() ==> !#[trigger] text::occurs_at(
                head + "\n---\n"@ + body,
                "\n---\n"@,
                i,
            ),
    ensures
        front_matter_spec("---\n"@ + (head + "\n---\n"@ + body)) == (
            summary_in(text::split_spec(head, '\n')),
            body,
        ),
        !("---\n"@.is_prefix_of(content)) ==> front_matter_spec(content) == (
            Seq::<char>::empty(),
            content,
        ),
{
    let open = "---\n"@;
    let close = "\n---\n"@;
    let rest = head + close + body;
    let whole = open + rest;
    assert(whole.subrange(0, open.len() as int) =~= open);
    assert(open.is_prefix_of(whole));
    assert(whole.skip(open.len() as int) =~= rest);
    text::lemma_part_occurs(head, close, body);
    assert(rest.subrange(head.len() as int, (head.len() + close.len()) as int) =~= close);
    assert(text::occurs_at(rest, close, head.len() as int));
    lemma_first_occurrence(rest, close, 0, head.len() as int);
    assert(rest.take(head.len() as int) =~= head);
    assert(rest.skip((head.len() + close.len()) as int) =~= body);
}

/// The last line that gives a summary counts, without white space around it; any
/// other line does not matter.
pub proof fn law_summary_line(lines: Seq<Seq<char>>, summary: Seq<char>, line: Seq<char>)
    ensures
        summary_in(lines.push("summary:"@ + summary)) == text::trim_spec(summary),
        !("summary:"@.is_prefix_of(line)) ==> summary_in(lines.push(line)) == summary_in(lines),
        summary_in(Seq::empty()).len() == 0,
{
    let given = "summary:"@ + summary;
    assert(lines.push(given).drop_last() =~= lines);
    assert(lines.push(line).drop_last() =~= lines);
    assert(given.subrange(0, "summary:"@.len() as int) =~= "summary:"@);
    assert("summary:"@.is_prefix_of(given));
    assert(given.skip("summary:"@.len() as int) =~= summary);
}

/// A guide that was parsed has the topic of its path, and the summary and the
/// body of its content.
pub proof fn law_guide_of_a_file(path: Seq<char>, content: Seq<char>)
    ensures
        markdown_guide(path, content).name == topic_of(path),
        (markdown_guide(path, content).summary, markdown_guide(path, content).content)
            == front_matter_spec(content),
{
}

/// Every markdown file has its guide, and there is no other guide.
pub proof fn law_every_markdown_file_is_a_guide(
    guides: Seq<GuideText>,
    files: Seq<(String, Vec<u8>)>,
    k: int,
)
    requires
        are_markdown_guides(guides, files),
    ensures
        guides.len() == markdown_files(files).len(),
        0 <= k < markdown_files(files).len() ==> guides.contains(
            markdown_guide(markdown_files(files)[k].0, lossy_text(markdown_files(files)[k].1)),
        ),
{
    let kept = markdown_files(files);
    let order = choose|order: Seq<usize>|
        #[trigger] sorting::is_sorted_order(order, file_paths(kept), file_paths(kept)) && guides
            == Seq::new(
            order.len(),
            |i: int|
                markdown_guide(kept[order[i] as int].0, lossy_text(kept[order[i] as int].1)),
        );
    if 0 <= k < kept.len() {
        sorting::lemma_lists_all(order, kept.len() as int, k);
        let i = choose|i: int| 0 <= i < order.len() && order[i] == k;
        assert(guides[i] == markdown_guide(kept[k].0, lossy_text(kept[k].1)));
    }
}

/// A file is taken for a guide exactly where its name ends like that of a
/// markdown file.
pub proof fn law_markdown_files_are_taken(
    files: Seq<(String, Vec<u8>)>,
    file: (String, Vec<u8>),
)
    ensures
        ".md"@.is_suffix_of(file.0@) ==> markdown_files(files.push(file)) == markdown_files(
            files,
        ).push((file.0@, file.1@)),
        !(".md"@.is_suffix_of(file.0@)) ==> markdown_files(files.push(file)) == markdown_files(
            files,
        ),
{
    assert(files.push(file).drop_last() =~= files);
}

/// The list of topics shows each guide with its summary.
pub proof fn law_topics_are_listed(entries: Seq<GuideText>, k: int)
    requires
        0 <= k < entries.len(),
    ensures
        text::contains_text(
            topic_list(entries),
            text::pad_spec(entries[k].name, 16) + " "@ + entries[k].summary + "\n"@,
        ),
{
    let line = text::pad_spec(entries[k].name, 16) + " "@ + entries[k].summary + "\n"@;
    lemma_topic_line(entries, k);
    let lines = topic_lines(entries);
    let lead = "Available guide topics:\n\n"@;
    let tail = "\nUsage: <cli> guide <topic>"@;
    let i = choose|i: int| text::occurs_at(lines, line, i);
    let whole = lead + lines + tail;
    let at: int = lead.len() + i;
    assert(whole.subrange(at, at + line.len()) =~= lines.subrange(i, i + line.len()));
    assert(text::occurs_at(whole, line, at));
}

proof fn lemma_topic_line(entries: Seq<GuideText>, k: int)
    requires
        0 <= k < entries.len(),
    ensures
        text::contains_text(
            topic_lines(entries),
            text::pad_spec(entries[k].name, 16) + " "@ + entries[k].summary + "\n"@,
        ),
    decreases entries.len(),
{
    let before = topic_lines(entries.drop_last());
    let g = entries.last();
    let last = text::pad_spec(g.name, 16) + " "@ + g.summary + "\n"@;
    let line = text::pad_spec(entries[k].name, 16) + " "@ + entries[k].summary + "\n"@;
    assert(topic_lines(entries) =~= before + "  "@ + last);
    if k == entries.len() - 1 {
        text::lemma_part_occurs(before + "  "@, last, Seq::empty());
        assert(before + "  "@ + last + Seq::<char>::empty() =~= before + "  "@ + last);
    } else {
        lemma_topic_line(entries.drop_last(), k);
        let i = choose|i: int| text::occurs_at(before, line, i);
        let whole = before + "  "@ + last;
        assert(whole.subrange(i, i + line.len()) =~= before.subrange(i, i + line.len()));
        assert(text::occurs_at(whole, line, i));
    }
}

/// Of the guides on a topic the last one is shown, and guides on other topics do
/// not matter.
pub proof fn law_last_guide_on_a_topic(entries: Seq<GuideText>, g: GuideText, topic: Seq<char>)
    ensures
        last_on(entries.push(g), g.name) == Some(g.content),
        topic != g.name ==> last_on(entries.push(g), topic) == last_on(entries, topic),
        last_on(Seq::empty(), topic) is None,
{
    assert(entries.push(g).drop_last() =~= entries);
}

/// A guide that is there is shown under its topic, and a topic without a guide
/// is an error.
pub proof fn law_guide_is_shown(r: Result<String, String>, entries: Seq<GuideText>, k: int)
    requires
        0 <= k < entries.len(),
        is_content(r, entries, Some(entries[k].name)),
        forall|j: int| k < j < entries.len() ==> (#[trigger] entries[j]).name != entries[k].name,
    ensures
        r matches Ok(out) && out@ == entries[k].content,
{
    lemma_last_on(entries, k);
}

proof fn lemma_last_on(entries: Seq<GuideText>, k: int)
    requires
        0 <= k < entries.len(),
        forall|j: int| k < j < entries.len() ==> (#[trigger] entries[j]).name != entries[k].name,
    ensures
        last_on(entries, entries[k].name) == Some(entries[k].content),
    decreases entries.len(),
{
    if k < entries.len() - 1 {
        let init = entries.drop_last();
        assert forall|j: int| k < j < init.len() implies (#[trigger] init[j]).name
            != init[k].name by {
            assert(init[j] == entries[j]);
        }
        assert(entries[entries.len() - 1].name != entries[k].name);
        lemma_last_on(init, k);
    }
}

} // verus!
