//! Directory listings: the order of the entries and the generated page.

use vstd::prelude::*;
use vstd::string::*;
use vstd::multiset::Multiset;
use vstd::relations::{sorted_by, total_ordering};
use vstd::seq_lib::lemma_sorted_unique;
use crate::text::{chars_of, str_eq};

verus! {

/// One child of a directory.
#[derive(Debug, Clone, PartialEq, Eq)]
pub struct DirEntry {
    /// The child's name within its directory.
    pub name: String,
    /// Whether the child is itself a directory.
    pub is_dir: bool,
}

/// The mathematical content of a `DirEntry`.
pub struct EntryView {
    pub name: Seq<char>,
    pub is_dir: bool,
}

impl View for DirEntry {
    type V = EntryView;

    open spec fn view(&self) -> EntryView {
        EntryView { name: self.name@, is_dir: self.is_dir }
    }
}

/// The contents of a run of entries.
pub open spec fn entry_views(entries: Seq<DirEntry>) -> Seq<EntryView> {
    entries.map_values(|e: DirEntry| e@)
}

/// Lexicographic order on names, character by character, by code point.
pub open spec fn lex_le(a: Seq<char>, b: Seq<char>) -> bool
    decreases a.len(),
{
    if a.len() == 0 {
        true
    } else if b.len() == 0 {
        false
    } else if a[0] != b[0] {
        (a[0] as u32) < (b[0] as u32)
    } else {
        lex_le(a.drop_first(), b.drop_first())
    }
}

/// The order of a listing: directories come before files, and within each
/// group names are in lexicographic order.
pub open spec fn entry_le(a: EntryView, b: EntryView) -> bool {
    if a.is_dir != b.is_dir {
        a.is_dir
    } else {
        lex_le(a.name, b.name)
    }
}

/// `entry_le` as a relation.
pub open spec fn entry_order() -> spec_fn(EntryView, EntryView) -> bool {
    |a: EntryView, b: EntryView| entry_le(a, b)
}

/// The anchor that a listing under `url_path` shows for one entry.
pub open spec fn entry_html(url_path: Seq<char>, e: EntryView) -> Seq<char> {
    if e.is_dir {
        "<a href=\""@ + url_path + e.name + "/\">"@ + e.name + "/</a><br/>"@
    } else {
        "<a href=\""@ + url_path + e.name + "\">"@ + e.name + "</a><br/>"@
    }
}

/// The anchors of a run of entries, in their order.
pub open spec fn entries_html(url_path: Seq<char>, entries: Seq<EntryView>) -> Seq<char>
    decreases entries.len(),
{
    if entries.len() == 0 {
        Seq::<char>::empty()
    } else {
        entries_html(url_path, entries.drop_last()) + entry_html(url_path, entries.last())
    }
}

/// The link to the parent directory; the root has none.
pub open spec fn parent_link(url_path: Seq<char>) -> Seq<char> {
    if url_path == "/"@ {
        Seq::<char>::empty()
    } else {
        "<a href=\""@ + url_path + "../\">../</a><br/>"@
    }
}

/// What precedes the anchors of a listing.
pub open spec fn index_head(url_path: Seq<char>) -> Seq<char> {
    "<html><head><title>Index of "@ + url_path + "</title></head><body><h1>Index of "@ + url_path
        + "</h1>"@ + parent_link(url_path)
}

/// The page that lists `entries`, in the order given, under `url_path`.
pub open spec fn index_html(url_path: Seq<char>, entries: Seq<EntryView>) -> Seq<char> {
    index_head(url_path) + entries_html(url_path, entries) + "<body></html>"@
}

/// Every name comes no later than itself.
pub proof fn lemma_lex_le_reflexive(a: Seq<char>)
    ensures
        lex_le(a, a),
    decreases a.len(),
{
    if a.len() > 0 {
        lemma_lex_le_reflexive(a.drop_first());
    }
}

/// Of two names, one comes no later than the other.
pub proof fn lemma_lex_le_total(a: Seq<char>, b: Seq<char>)
    ensures
        lex_le(a, b) || lex_le(b, a),
    decreases a.len(),
{
    if a.len() > 0 && b.len() > 0 {
        if a[0] == b[0] {
            lemma_lex_le_total(a.drop_first(), b.drop_first());
        } else {
            vstd::utf8::char_u32_cast(a[0], a[0] as u32);
            vstd::utf8::char_u32_cast(b[0], b[0] as u32);
        }
    }
}

/// Two names of which each comes no later than the other are the same.
pub proof fn lemma_lex_le_antisymmetric(a: Seq<char>, b: Seq<char>)
    requires
        lex_le(a, b),
        lex_le(b, a),
    ensures
        a == b,
    decreases a.len(),
{
    if a.len() > 0 && b.len() > 0 {
        lemma_lex_le_antisymmetric(a.drop_first(), b.drop_first());
        assert(a =~= seq![a[0]] + a.drop_first());
    }
}

/// The order of names is transitive.
pub proof fn lemma_lex_le_transitive(a: Seq<char>, b: Seq<char>, c: Seq<char>)
    requires
        lex_le(a, b),
        lex_le(b, c),
    ensures
        lex_le(a, c),
    decreases a.len(),
{
    if a.len() > 0 && b.len() > 0 && c.len() > 0 && a[0] == b[0] && b[0] == c[0] {
        lemma_lex_le_transitive(a.drop_first(), b.drop_first(), c.drop_first());
    }
}

/// The order of a listing is a total order on entry contents.
pub proof fn lemma_entry_order_total()
    ensures
        total_ordering(entry_order()),
{
    let r = entry_order();
    assert forall|x: EntryView| #[trigger] r(x, x) by {
        lemma_lex_le_reflexive(x.name);
    }
    assert forall|x: EntryView, y: EntryView| #[trigger] r(x, y) && #[trigger] r(y, x) implies x
        == y by {
        lemma_lex_le_antisymmetric(x.name, y.name);
    }
    assert forall|x: EntryView, y: EntryView, z: EntryView| #[trigger]
        r(x, y) && #[trigger] r(y, z) implies r(x, z) by {
        if x.is_dir == y.is_dir && y.is_dir == z.is_dir {
            lemma_lex_le_transitive(x.name, y.name, z.name);
        }
    }
    assert forall|x: EntryView, y: EntryView| #[trigger] r(x, y) || #[trigger] r(y, x) by {
        lemma_lex_le_total(x.name, y.name);
    }
}

/// The listing of a directory holds exactly its children, each as often as
/// it was given; no file comes before a directory; and within the
/// directories, and within the files, names ascend.
pub proof fn lemma_listing_order(entries: Seq<EntryView>)
    ensures
        ({
            let listing = entries.sort_by(entry_order());
            &&& listing.to_multiset() == entries.to_multiset()
            &&& listing.len() == entries.len()
            &&& forall|i: int, j: int|
                0 <= i < j < listing.len() && #[trigger] listing[j].is_dir
                    ==> #[trigger] listing[i].is_dir
            &&& forall|i: int, j: int|
                0 <= i < j < listing.len() && listing[i].is_dir == listing[j].is_dir ==> lex_le(
                    #[trigger] listing[i].name,
                    #[trigger] listing[j].name,
                )
        }),
{
    broadcast use vstd::seq_lib::group_to_multiset_ensures;

    lemma_entry_order_total();
    entries.lemma_sort_by_ensures(entry_order());
    let listing = entries.sort_by(entry_order());
    assert(listing.len() == entries.len()) by {
        assert(listing.len() == listing.to_multiset().len());
    }
    assert forall|i: int, j: int|
        0 <= i < j < listing.len() && #[trigger] listing[j].is_dir implies #[trigger] listing[i].is_dir by {
        assert(entry_order()(listing[i], listing[j]));
    }
    assert forall|i: int, j: int|
        0 <= i < j < listing.len() && listing[i].is_dir == listing[j].is_dir implies lex_le(
        #[trigger] listing[i].name,
        #[trigger] listing[j].name,
    ) by {
        assert(entry_order()(listing[i], listing[j]));
    }
}

/// A listing opens with the link to the parent directory, unless it is the
/// listing of `/`: there the anchors of the children follow the heading at
/// once.
pub proof fn lemma_parent_link_first(url_path: Seq<char>, entries: Seq<EntryView>)
    ensures
        url_path == "/"@ ==> index_html(url_path, entries)
            == "<html><head><title>Index of /</title></head><body><h1>Index of /</h1>"@
            + entries_html(url_path, entries) + "<body></html>"@,
        url_path != "/"@ ==> index_html(url_path, entries) == "<html><head><title>Index of "@
            + url_path + "</title></head><body><h1>Index of "@ + url_path + "</h1><a href=\""@
            + url_path + "../\">../</a><br/>"@ + entries_html(url_path, entries)
            + "<body></html>"@,
{
    reveal_strlit("/");
    reveal_strlit("<html><head><title>Index of ");
    reveal_strlit("</title></head><body><h1>Index of ");
    reveal_strlit("</h1>");
    reveal_strlit("<a href=\"");
    reveal_strlit("../\">../</a><br/>");
    reveal_strlit("</h1><a href=\"");
    reveal_strlit("<html><head><title>Index of /</title></head><body><h1>Index of /</h1>");
    if url_path == "/"@ {
        assert(index_head(url_path)
            =~= "<html><head><title>Index of /</title></head><body><h1>Index of /</h1>"@);
    } else {
        assert(index_head(url_path) =~= "<html><head><title>Index of "@ + url_path
            + "</title></head><body><h1>Index of "@ + url_path + "</h1><a href=\""@ + url_path
            + "../\">../</a><br/>"@);
    }
}

/// Whether `a` has the smaller code point.
fn char_lt(a: char, b: char) -> (r: bool)
    ensures
        r == ((a as u32) < (b as u32)),
{
    a < b
}

/// Whether name `a` comes no later than name `b`.
fn name_le(a: &Vec<char>, b: &Vec<char>) -> (r: bool)
    ensures
        r == lex_le(a@, b@),
{
    let mut i: usize = 0;
    assert(a@.skip(0) =~= a@ && b@.skip(0) =~= b@);
    while i < a.len() && i < b.len() && a[i] == b[i]
        invariant
            i <= a.len(),
            i <= b.len(),
            lex_le(a@, b@) == lex_le(a@.skip(i as int), b@.skip(i as int)),
        decreases a.len() - i,
    {
        proof {
            assert(a@.skip(i as int).drop_first() =~= a@.skip(i + 1));
            assert(b@.skip(i as int).drop_first() =~= b@.skip(i + 1));
        }
        i += 1;
    }
    if i == a.len() {
        true
    } else if i == b.len() {
        false
    } else {
        char_lt(a[i], b[i])
    }
}

/// Whether the entry with the first flag and name comes no later than the
/// entry with the second.
fn comes_before(a_dir: bool, a_name: &Vec<char>, b_dir: bool, b_name: &Vec<char>) -> (r: bool)
    ensures
        r == entry_le(
            EntryView { name: a_name@, is_dir: a_dir },
            EntryView { name: b_name@, is_dir: b_dir },
        ),
{
    if a_dir != b_dir {
        a_dir
    } else {
        name_le(a_name, b_name)
    }
}

/// Puts the entries of a directory in listing order: directories first,
/// each group by name.
pub fn sort_entries(entries: Vec<DirEntry>) -> (sorted: Vec<DirEntry>)
    ensures
        entry_views(sorted@) == entry_views(entries@).sort_by(entry_order()),
{
    let ghost given = entry_views(entries@);
    let mut rest = entries;
    let mut out: Vec<DirEntry> = Vec::new();
    let mut keys: Vec<Vec<char>> = Vec::new();
    proof {
        broadcast use vstd::seq_lib::group_to_multiset_ensures;
        broadcast use vstd::multiset::group_multiset_axioms;

        assert(entry_views(out@).to_multiset().add(entry_views(rest@).to_multiset())
            =~= given.to_multiset());
    }
    while rest.len() > 0
        invariant
            keys.len() == out.len(),
            forall|i: int| 0 <= i < out.len() ==> (#[trigger] keys@[i])@ == out@[i].name@,
            sorted_by(entry_views(out@), entry_order()),
            entry_views(out@).to_multiset().add(entry_views(rest@).to_multiset())
                == given.to_multiset(),
        decreases rest.len(),
    {
        let ghost rest_before = rest@;
        let ghost out_before = out@;
        let e = rest.pop().unwrap();
        let key = chars_of(e.name.as_str());
        // Binary search for the place of `e`: behind every entry that comes
        // no later than it, in front of every entry that comes later.
        let mut lo: usize = 0;
        let mut hi: usize = out.len();
        while lo < hi
            invariant
                lo <= hi <= out.len(),
                keys.len() == out.len(),
                key@ == e.name@,
                forall|i: int| 0 <= i < out.len() ==> (#[trigger] keys@[i])@ == out@[i].name@,
                sorted_by(entry_views(out@), entry_order()),
                forall|i: int| 0 <= i < lo ==> entry_le(#[trigger] entry_views(out@)[i], e@),
                forall|i: int|
                    hi <= i < out.len() ==> !entry_le(#[trigger] entry_views(out@)[i], e@),
            decreases hi - lo,
        {
            let mid: usize = lo + (hi - lo) / 2;
            let ghost views = entry_views(out@);
            proof {
                lemma_entry_order_total();
            }
            if comes_before(out[mid].is_dir, &keys[mid], e.is_dir, &key) {
                assert forall|i: int| 0 <= i < mid + 1 implies entry_le(
                    #[trigger] entry_views(out@)[i],
                    e@,
                ) by {
                    if i < mid {
                        assert(entry_order()(views[i], views[mid as int]));
                        assert(entry_order()(views[mid as int], e@));
                    }
                }
                lo = mid + 1;
            } else {
                assert forall|i: int| mid <= i < out.len() implies !entry_le(
                    #[trigger] entry_views(out@)[i],
                    e@,
                ) by {
                    if i > mid && entry_le(views[i], e@) {
                        assert(entry_order()(views[mid as int], views[i]));
                        assert(entry_order()(views[i], e@));
                    }
                }
                hi = mid;
            }
        }
        let ghost ev = e@;
        out.insert(lo, e);
        keys.insert(lo, key);
        proof {
            broadcast use vstd::seq_lib::group_to_multiset_ensures;
            broadcast use vstd::multiset::group_multiset_axioms;

            lemma_entry_order_total();
            let before = entry_views(out_before);
            let after = entry_views(out@);
            assert(after =~= before.insert(lo as int, ev));
            assert(entry_views(rest_before) =~= entry_views(rest@).push(ev));
            assert(after.to_multiset().add(entry_views(rest@).to_multiset())
                =~= given.to_multiset());
            assert forall|i: int, j: int| 0 <= i < j < after.len() implies #[trigger] entry_order()(
                after[i],
                after[j],
            ) by {
                if i == lo {
                    assert(entry_order()(before[j - 1], ev) || entry_order()(ev, before[j - 1]));
                }
            }
        }
    }
    proof {
        broadcast use vstd::seq_lib::group_to_multiset_ensures;
        broadcast use vstd::multiset::group_multiset_axioms;

        lemma_entry_order_total();
        assert(entry_views(out@).to_multiset() =~= given.to_multiset());
        given.lemma_sort_by_ensures(entry_order());
        lemma_sorted_unique(entry_views(out@), given.sort_by(entry_order()), entry_order());
    }
    out
}

/// Appends the anchor of one entry to `page`.
fn push_entry(page: &mut String, url_path: &str, entry: &DirEntry)
    ensures
        final(page)@ == old(page)@ + entry_html(url_path@, entry@),
{
    page.append("<a href=\"");
    page.append(url_path);
    page.append(entry.name.as_str());
    if entry.is_dir {
        page.append("/\">");
        page.append(entry.name.as_str());
        page.append("/</a><br/>");
    } else {
        page.append("\">");
        page.append(entry.name.as_str());
        page.append("</a><br/>");
    }
}

/// Renders the page that lists `listing`, in the order given, under
/// `url_path`: a title, a link to the parent unless `url_path` is `/`, and
/// one anchor per entry, to `url_path` followed by the entry's name.
pub fn index_page(url_path: &str, listing: &Vec<DirEntry>) -> (page: String)
    ensures
        page@ == index_html(url_path@, entry_views(listing@)),
{
    let mut page = "<html><head><title>Index of ".to_owned();
    page.append(url_path);
    page.append("</title></head><body><h1>Index of ");
    page.append(url_path);
    page.append("</h1>");
    if !str_eq(url_path, "/") {
        page.append("<a href=\"");
        page.append(url_path);
        page.append("../\">../</a><br/>");
    }
    let ghost views = entry_views(listing@);
    let mut i: usize = 0;
    while i < listing.len()
        invariant
            i <= listing.len(),
            views == entry_views(listing@),
            page@ == index_head(url_path@) + entries_html(url_path@, views.take(i as int)),
        decreases listing.len() - i,
    {
        push_entry(&mut page, url_path, &listing[i]);
        proof {
            let next = views.take(i + 1);
            assert(next.drop_last() =~= views.take(i as int));
        }
        i += 1;
    }
    assert(views.take(i as int) =~= views);
    page.append("<body></html>");
    page
}

/// Renders the listing of a directory whose children are `entries`, in any
/// order, under `url_path`.
pub fn render_index(url_path: &str, entries: Vec<DirEntry>) -> (page: String)
    ensures
        page@ == index_html(url_path@, entry_views(entries@).sort_by(entry_order())),
{
    let listing = sort_entries(entries);
    index_page(url_path, &listing)
}

} // verus!
