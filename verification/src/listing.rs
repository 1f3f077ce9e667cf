//! The directory-listing renderer: from a directory enumeration to an HTML
//! page. Every entry that is a directory, has a decodable name and is not
//! hidden (dot-prefixed) contributes one anchor; the anchors are joined with
//! line breaks and wrapped in a fixed HTML shell whose title is the target
//! path. A target that could not be listed renders the same page with an
//! empty body — never an HTTP error.

use vstd::prelude::*;

verus! {

/// One entry of a directory enumeration, as the filesystem reported it.
#[derive(Debug)]
pub struct FsEntry {
    /// The entry's bare name (its final path component), or `None` when the
    /// name cannot be decoded as text; such an entry is omitted from the
    /// listing rather than failing the request.
    pub name: Option<String>,
    /// The entry's full resolved path, used as the anchor's visible label.
    pub path: String,
    /// Whether the entry is a directory.
    pub is_dir: bool,
}

/// A name is hidden when it begins with a dot.
pub open spec fn hidden_name(n: Seq<char>) -> bool {
    n.len() > 0 && n[0] == '.'
}

/// An entry appears in the listing exactly when it is a directory whose name
/// could be decoded and is not hidden.
pub open spec fn visible(e: FsEntry) -> bool {
    e.is_dir && match e.name {
        Option::Some(n) => !hidden_name(n@),
        Option::None => false,
    }
}

/// The anchor element for one listed entry: the link target is the bare
/// name (a relative link), the visible label the full resolved path.
pub open spec fn anchor_spec(name: Seq<char>, label: Seq<char>) -> Seq<char> {
    "<a href='"@ + name + "'>"@ + label + "</a>"@
}

/// The anchor a visible entry contributes.
pub open spec fn entry_anchor(e: FsEntry) -> Seq<char> {
    match e.name {
        Option::Some(n) => anchor_spec(n@, e.path@),
        Option::None => Seq::<char>::empty(),
    }
}

/// The visible entries of an enumeration, in enumeration order.
pub open spec fn visible_entries(es: Seq<FsEntry>) -> Seq<FsEntry>
    decreases es.len(),
{
    if es.len() == 0 {
        Seq::<FsEntry>::empty()
    } else if visible(es.last()) {
        visible_entries(es.drop_last()).push(es.last())
    } else {
        visible_entries(es.drop_last())
    }
}

/// The anchors of the visible entries, in enumeration order.
pub open spec fn anchors_of(es: Seq<FsEntry>) -> Seq<Seq<char>>
    decreases es.len(),
{
    if es.len() == 0 {
        Seq::<Seq<char>>::empty()
    } else if visible(es.last()) {
        anchors_of(es.drop_last()).push(entry_anchor(es.last()))
    } else {
        anchors_of(es.drop_last())
    }
}

/// The anchors joined with a line break between each adjacent pair.
pub open spec fn joined_anchors(parts: Seq<Seq<char>>) -> Seq<char>
    decreases parts.len(),
{
    if parts.len() == 0 {
        Seq::<char>::empty()
    } else if parts.len() == 1 {
        parts[0]
    } else {
        joined_anchors(parts.drop_last()) + "\n<br/>\n"@ + parts.last()
    }
}

/// Everything of the page before the title.
pub open spec fn page_prefix() -> Seq<char> {
    "<!DOCTYPE html>\n<html lang=\"en\">\n<head>\n<meta charset=\"UTF-8\">\n<meta name=\"viewport\" content=\"width=device-width, initial-scale=1.0\">\n<title>"@
}

/// Everything of the page between the title and the body.
pub open spec fn page_middle() -> Seq<char> {
    "</title>\n<link rel=\"stylesheet\" href=\"https://cdn.jsdelivr.net/npm/@picocss/pico@2/css/pico.min.css\"/>\n</head>\n<body>\n"@
}

/// Everything of the page after the body.
pub open spec fn page_suffix() -> Seq<char> {
    "\n</body>\n</html>\n"@
}

/// The whole document: the fixed shell around the title and the body.
pub open spec fn page_spec(title: Seq<char>, body: Seq<char>) -> Seq<char> {
    page_prefix() + title + page_middle() + body + page_suffix()
}

/// The view of a directory enumeration handed in by the filesystem:
/// `None` when the target could not be listed at all.
pub open spec fn listing_view(listing: Option<Vec<FsEntry>>) -> Option<Seq<FsEntry>> {
    match listing {
        Option::Some(es) => Option::Some(es@),
        Option::None => Option::None,
    }
}

/// The page a fallback request is answered with: title the target path,
/// body the joined anchors of the visible entries — or empty when the
/// target could not be listed.
pub open spec fn listing_page_spec(target: Seq<char>, listing: Option<Seq<FsEntry>>) -> Seq<
    char,
> {
    match listing {
        Option::Some(es) => page_spec(target, joined_anchors(anchors_of(es))),
        Option::None => page_spec(target, Seq::<char>::empty()),
    }
}

/// Whether this name is hidden by the dot convention.
fn name_is_hidden(n: &str) -> (b: bool)
    ensures
        b == hidden_name(n@),
{
    if n.unicode_len() == 0 {
        false
    } else {
        n.get_char(0) == '.'
    }
}

/// Build the anchor element for one visible entry.
fn anchor_string(name: &str, label: &str) -> (s: String)
    ensures
        s@ == anchor_spec(name@, label@),
{
    let mut s: String = "<a href='".to_owned();
    s.append(name);
    s.append("'>");
    s.append(label);
    s.append("</a>");
    s
}

/// Render the listing page for `target` from the directory enumeration the
/// filesystem yielded there, or from `None` when the target could not be
/// listed. Always a full page, never an error: a missing or unreadable
/// target degrades to an empty body.
pub fn render_listing(target: &str, listing: Option<Vec<FsEntry>>) -> (page: String)
    ensures
        page@ == listing_page_spec(target@, listing_view(listing)),
{
    let body: String = match &listing {
        Option::Some(entries) => {
            let mut acc = String::new();
            let mut count: usize = 0;
            let mut j: usize = 0;
            proof {
                assert(entries@.subrange(0, 0) =~= Seq::<FsEntry>::empty());
            }
            while j < entries.len()
                invariant
                    j <= entries.len(),
                    acc@ == joined_anchors(anchors_of(entries@.subrange(0, j as int))),
                    count <= j,
                    count == anchors_of(entries@.subrange(0, j as int)).len(),
                decreases entries.len() - j,
            {
                let ghost pre = entries@.subrange(0, j as int);
                proof {
                    assert(entries@.subrange(0, j as int + 1) =~= pre.push(
                        entries@[j as int],
                    ));
                    assert(pre.push(entries@[j as int]).drop_last() =~= pre);
                }
                let e = &entries[j];
                if e.is_dir {
                    match &e.name {
                        Option::Some(n) => {
                            if !name_is_hidden(n.as_str()) {
                                let ghost a = entry_anchor(entries@[j as int]);
                                proof {
                                    assert(anchors_of(pre).push(a).drop_last() =~= anchors_of(
                                        pre,
                                    ));
                                }
                                if count > 0 {
                                    acc.append("\n<br/>\n");
                                } else {
                                    proof {
                                        assert(anchors_of(pre).push(a) =~= seq![a]);
                                    }
                                }
                                let link = anchor_string(n.as_str(), e.path.as_str());
                                acc.append(link.as_str());
                                count = count + 1;
                                proof {
                                    if anchors_of(pre).len() == 0 {
                                        assert(acc@ =~= joined_anchors(seq![a]));
                                    }
                                }
                            }
                        },
                        Option::None => {},
                    }
                }
                j = j + 1;
            }
            proof {
                assert(entries@.subrange(0, entries@.len() as int) =~= entries@);
            }
            acc
        },
        Option::None => String::new(),
    };
    let mut page: String =
        "<!DOCTYPE html>\n<html lang=\"en\">\n<head>\n<meta charset=\"UTF-8\">\n<meta name=\"viewport\" content=\"width=device-width, initial-scale=1.0\">\n<title>".to_owned();
    page.append(target);
    page.append(
        "</title>\n<link rel=\"stylesheet\" href=\"https://cdn.jsdelivr.net/npm/@picocss/pico@2/css/pico.min.css\"/>\n</head>\n<body>\n",
    );
    page.append(body.as_str());
    page.append("\n</body>\n</html>\n");
    page
}

/// One anchor per visible subdirectory and none for any other entry: the
/// anchor list of a listing is the image of its visible entries, in order.
pub proof fn lemma_one_anchor_per_visible(es: Seq<FsEntry>)
    ensures
        anchors_of(es).len() == visible_entries(es).len(),
        forall|i: int|
            0 <= i < anchors_of(es).len() ==> #[trigger] anchors_of(es)[i] == entry_anchor(
                visible_entries(es)[i],
            ),
    decreases es.len(),
{
    if es.len() > 0 {
        lemma_one_anchor_per_visible(es.drop_last());
        if visible(es.last()) {
            let a = anchors_of(es.drop_last());
            let v = visible_entries(es.drop_last());
            assert forall|i: int| 0 <= i < anchors_of(es).len() implies anchors_of(es)[i]
                == entry_anchor(visible_entries(es)[i]) by {
                if i < a.len() {
                    assert(anchors_of(es)[i] == a[i]);
                    assert(visible_entries(es)[i] == v[i]);
                } else {
                    assert(anchors_of(es)[i] == entry_anchor(es.last()));
                    assert(visible_entries(es)[i] == es.last());
                }
            }
        }
    }
}

/// A hidden or non-directory entry is never listed: every entry the anchors
/// are drawn from is a visible one.
pub proof fn lemma_hidden_never_listed(es: Seq<FsEntry>)
    ensures
        forall|i: int|
            0 <= i < visible_entries(es).len() ==> visible(
                #[trigger] visible_entries(es)[i],
            ),
    decreases es.len(),
{
    if es.len() > 0 {
        lemma_hidden_never_listed(es.drop_last());
        let v = visible_entries(es.drop_last());
        if visible(es.last()) {
            assert forall|i: int| 0 <= i < visible_entries(es).len() implies visible(
                visible_entries(es)[i],
            ) by {
                if i < v.len() {
                    assert(visible_entries(es)[i] == v[i]);
                } else {
                    assert(visible_entries(es)[i] == es.last());
                }
            }
        }
    }
}

/// A target that cannot be listed still renders a complete page with an
/// empty body — not one anchor, and never an HTTP error — and that page is
/// byte-identical to the one for a directory that exists but is empty.
pub proof fn lemma_missing_renders_as_empty(target: Seq<char>)
    ensures
        listing_page_spec(target, Option::None) == page_spec(target, Seq::<char>::empty()),
        listing_page_spec(target, Option::Some(Seq::<FsEntry>::empty())) == listing_page_spec(
            target,
            Option::None,
        ),
{
}

/// Rendering is deterministic: two renders of one target from one directory
/// enumeration yield byte-identical pages.
pub proof fn lemma_render_idempotent(
    target: Seq<char>,
    listing: Option<Seq<FsEntry>>,
    first: Seq<char>,
    second: Seq<char>,
)
    requires
        first == listing_page_spec(target, listing),
        second == listing_page_spec(target, listing),
    ensures
        first == second,
{
}

} // verus!
