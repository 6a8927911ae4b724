//! Scanning a notification body for its fixed set of tags.
//!
//! This is a tag scan, not an XML parser: for each known opening tag the
//! first line that begins with it (after trimming) and is long enough to
//! hold the matching closing tag gives up the text strictly between the
//! two tags. Nothing else in the body is read; attribute-bearing or
//! multi-line tags are out of scope.

use vstd::prelude::*;
use vstd::string::StringSliceAdditionalSpecFns;

use crate::bytes::{split_lines, split_lines_exec, trim, trim_exec, lemma_deep_index, starts_with_bytes, copy_range};
use crate::kvmap::KvMap;

verus! {

/// The opening tag of the video identifier.
pub open spec fn videoid_open() -> Seq<u8> {
    "<yt:videoId>".spec_bytes()
}

/// The key under which the video identifier is stored.
pub open spec fn videoid_name() -> Seq<u8> {
    "yt:videoId".spec_bytes()
}

/// The opening tag of the channel identifier.
pub open spec fn channelid_open() -> Seq<u8> {
    "<yt:channelId>".spec_bytes()
}

/// The key under which the channel identifier is stored.
pub open spec fn channelid_name() -> Seq<u8> {
    "yt:channelId".spec_bytes()
}

/// The opening tag of the video title.
pub open spec fn title_open() -> Seq<u8> {
    "<title>".spec_bytes()
}

/// The key under which the video title is stored.
pub open spec fn title_name() -> Seq<u8> {
    "title".spec_bytes()
}

/// The opening tag of the author name.
pub open spec fn name_open() -> Seq<u8> {
    "<name>".spec_bytes()
}

/// The key under which the author name is stored.
pub open spec fn name_name() -> Seq<u8> {
    "name".spec_bytes()
}

/// The opening tag of the published timestamp.
pub open spec fn published_open() -> Seq<u8> {
    "<published>".spec_bytes()
}

/// The key under which the published timestamp is stored.
pub open spec fn published_name() -> Seq<u8> {
    "published".spec_bytes()
}

/// The opening tag of the updated timestamp.
pub open spec fn updated_open() -> Seq<u8> {
    "<updated>".spec_bytes()
}

/// The key under which the updated timestamp is stored.
pub open spec fn updated_name() -> Seq<u8> {
    "updated".spec_bytes()
}

/// Whether a trimmed line carries the tag: it begins with the opening tag
/// and is long enough to hold the matching closing tag.
pub open spec fn tag_matches(l: Seq<u8>, open: Seq<u8>) -> bool {
    open.is_prefix_of(l) && l.len() >= 2 * open.len() + 1
}

/// The text strictly between the opening tag and the closing tag's slot.
pub open spec fn tag_value(l: Seq<u8>, open: Seq<u8>) -> Seq<u8> {
    l.subrange(open.len() as int, l.len() - open.len() - 1)
}

/// The first trimmed line carrying the tag, if any.
pub open spec fn find_tag(lines: Seq<Seq<u8>>, open: Seq<u8>) -> Option<Seq<u8>>
    decreases lines.len(),
{
    if lines.len() == 0 {
        None
    } else if tag_matches(trim(lines[0]), open) {
        Some(trim(lines[0]))
    } else {
        find_tag(lines.drop_first(), open)
    }
}

/// A match at `i` with none before it pins `find_tag` down.
proof fn lemma_find_tag_at(lines: Seq<Seq<u8>>, open: Seq<u8>, i: int)
    requires
        0 <= i < lines.len(),
        tag_matches(trim(lines[i]), open),
        forall|j: int| 0 <= j < i ==> !tag_matches(trim(lines[j]), open),
    ensures
        find_tag(lines, open) == Some(trim(lines[i])),
    decreases i,
{
    if i > 0 {
        let t = lines.drop_first();
        assert(forall|j: int| 0 <= j < t.len() ==> t[j] == lines[j + 1]);
        lemma_find_tag_at(t, open, i - 1);
    }
}

/// No match at all pins `find_tag` to `None`.
proof fn lemma_find_tag_none(lines: Seq<Seq<u8>>, open: Seq<u8>)
    requires
        forall|j: int| 0 <= j < lines.len() ==> !tag_matches(trim(lines[j]), open),
    ensures
        find_tag(lines, open) is None,
    decreases lines.len(),
{
    if lines.len() > 0 {
        let t = lines.drop_first();
        assert(forall|j: int| 0 <= j < t.len() ==> t[j] == lines[j + 1]);
        lemma_find_tag_none(t, open);
    }
}

/// `m` extended with the tag's value, when some line carries the tag.
pub open spec fn spec_scan_tag(
    m: Map<Seq<u8>, Seq<u8>>,
    lines: Seq<Seq<u8>>,
    name: Seq<u8>,
    open: Seq<u8>,
) -> Map<Seq<u8>, Seq<u8>> {
    match find_tag(lines, open) {
        Some(l) => m.insert(name, tag_value(l, open)),
        None => m,
    }
}

/// The mapping of the six scanned tags of `xml`, each searched for
/// independently over the trimmed lines.
pub open spec fn spec_parse_xml(xml: Seq<u8>) -> Map<Seq<u8>, Seq<u8>> {
    let lines = split_lines(xml);
    let m = Map::empty();
    let m = spec_scan_tag(m, lines, videoid_name(), videoid_open());
    let m = spec_scan_tag(m, lines, channelid_name(), channelid_open());
    let m = spec_scan_tag(m, lines, title_name(), title_open());
    let m = spec_scan_tag(m, lines, name_name(), name_open());
    let m = spec_scan_tag(m, lines, published_name(), published_open());
    let m = spec_scan_tag(m, lines, updated_name(), updated_open());
    m
}

/// Scans the lines for one tag and records its value, as `spec_scan_tag`
/// describes.
fn scan_tag(m: &mut KvMap, lines: &Vec<Vec<u8>>, name: &[u8], open: &[u8])
    ensures
        final(m)@ == spec_scan_tag(old(m)@, lines.deep_view(), name@, open@),
{
    let ghost dv = lines.deep_view();
    let mut i: usize = 0;
    while i < lines.len()
        invariant
            0 <= i <= lines@.len(),
            dv == lines.deep_view(),
            dv.len() == lines@.len(),
            *m == *old(m),
            forall|j: int| 0 <= j < i ==> !tag_matches(trim(dv[j]), open@),
        decreases lines@.len() - i,
    {
        let t = trim_exec(lines[i].as_slice());
        proof {
            lemma_deep_index(lines, i as int);
        }
        if starts_with_bytes(t.as_slice(), open) {
            let d = t.len() - open.len();
            if d > open.len() {
                proof {
                    assert(tag_matches(trim(dv[i as int]), open@));
                    lemma_find_tag_at(dv, open@, i as int);
                }
                let value = copy_range(t.as_slice(), open.len(), t.len() - open.len() - 1);
                proof {
                    assert(value@ == tag_value(trim(dv[i as int]), open@));
                }
                m.insert(vstd::slice::slice_to_vec(name), value);
                return;
            }
        }
        proof {
            assert(!tag_matches(trim(dv[i as int]), open@));
        }
        i = i + 1;
    }
    proof {
        lemma_find_tag_none(dv, open@);
    }
}

/// Extracts the six scanned tags of `xml`, as `spec_parse_xml` describes.
pub fn parse_xml(xml: &[u8]) -> (r: KvMap)
    ensures
        r@ == spec_parse_xml(xml@),
{
    let lines = split_lines_exec(xml);
    let mut m = KvMap::new();
    scan_tag(&mut m, &lines, "yt:videoId".as_bytes(), "<yt:videoId>".as_bytes());
    scan_tag(&mut m, &lines, "yt:channelId".as_bytes(), "<yt:channelId>".as_bytes());
    scan_tag(&mut m, &lines, "title".as_bytes(), "<title>".as_bytes());
    scan_tag(&mut m, &lines, "name".as_bytes(), "<name>".as_bytes());
    scan_tag(&mut m, &lines, "published".as_bytes(), "<published>".as_bytes());
    scan_tag(&mut m, &lines, "updated".as_bytes(), "<updated>".as_bytes());
    m
}

} // verus!
