use std::ops::Range;
use vstd::prelude::*;
use vstd::string::StringSliceAdditionalSpecFns;

verus! {

/// A position in the editor's convention: rows start at 1, columns at 0 and
/// count bytes within the row.
#[derive(Debug, PartialEq, Eq, Structural, Clone, Copy)]
pub struct NeovimPos {
    pub row: usize,
    pub col: usize,
}

impl NeovimPos {
    pub fn new(row: usize, col: usize) -> (r: NeovimPos)
        requires
            row > 0,
        ensures
            r.row == row,
            r.col == col,
    {
        NeovimPos { row, col }
    }
}

impl PartialEq<(usize, usize)> for NeovimPos {
    fn eq(&self, other: &(usize, usize)) -> (r: bool) {
        self.row == other.0 && self.col == other.1
    }
}

impl vstd::std_specs::cmp::PartialEqSpecImpl<(usize, usize)> for NeovimPos {
    open spec fn obeys_eq_spec() -> bool {
        true
    }

    open spec fn eq_spec(&self, other: &(usize, usize)) -> bool {
        self.row == other.0 && self.col == other.1
    }
}

/// A range in the editor's convention; both ends are inclusive.
#[derive(Debug, PartialEq, Eq, Structural, Clone, Copy)]
pub struct NeovimRange {
    pub start: NeovimPos,
    pub end: NeovimPos,
}

impl NeovimRange {
    pub fn new(start: (usize, usize), end: (usize, usize)) -> (r: Self)
        requires
            start.0 > 0,
            end.0 > 0,
        ensures
            r.start.row == start.0,
            r.start.col == start.1,
            r.end.row == end.0,
            r.end.col == end.1,
    {
        NeovimRange { start: NeovimPos::new(start.0, start.1), end: NeovimPos::new(end.0, end.1) }
    }
}

#[derive(Debug, PartialEq, Eq)]
pub struct Heading {
    pub id: String,
    pub level: u16,
    pub content: String,
    pub range: NeovimRange,
    pub char_range: Range<usize>,
}

#[derive(Debug, PartialEq, Eq)]
pub struct LinkDef {
    pub label: String,
    pub url: String,
    pub range: NeovimRange,
    pub char_range: Range<usize>,
}

#[derive(Debug, PartialEq, Eq, Clone)]
pub enum LinkRef {
    Inline(String),
    Reference { label: String, url: String },
    Email(String),
    AutoLink(String),
    Unresolved(String),
}

#[derive(Debug, PartialEq, Eq)]
pub struct Link {
    pub link_ref: LinkRef,
    pub range: NeovimRange,
    pub char_range: Range<usize>,
}

#[derive(Debug, PartialEq, Eq, Clone)]
pub enum ImgRef {
    Inline(String),
    Reference { label: String, url: String },
    Unresolved(String),
}

#[derive(Debug, PartialEq, Eq)]
pub struct Img {
    pub link_ref: ImgRef,
    pub range: NeovimRange,
    pub char_range: Range<usize>,
}

#[derive(Debug, PartialEq, Eq, Clone)]
pub enum ElementInfo {
    Link(Link),
    LinkDef(LinkDef),
    Heading(Heading),
    Img(Img),
}

/// How the parser resolved a span link or an image target.
#[derive(Debug, PartialEq, Eq, Structural, Clone, Copy)]
pub enum SpanLinkType {
    Inline,
    Reference,
    Unresolved,
}

/// How the parser found a link.
#[derive(Debug, PartialEq, Eq, Structural, Clone, Copy)]
pub enum LinkType {
    Span(SpanLinkType),
    AutoLink,
    Email,
}

impl LinkRef {
    /// Tags a link by how it was found. `target` is what the parser gave as
    /// its destination: the URL, or the raw text when unresolved; `label` is
    /// the reference label, kept only for a resolved reference.
    pub fn classify(link_type: LinkType, target: String, label: String) -> (r: LinkRef)
        ensures
            r == match link_type {
                LinkType::Span(SpanLinkType::Inline) => LinkRef::Inline(target),
                LinkType::Span(SpanLinkType::Reference) => LinkRef::Reference { label, url: target },
                LinkType::Span(SpanLinkType::Unresolved) => LinkRef::Unresolved(target),
                LinkType::AutoLink => LinkRef::AutoLink(target),
                LinkType::Email => LinkRef::Email(target),
            },
    {
        match link_type {
            LinkType::Span(SpanLinkType::Inline) => LinkRef::Inline(target),
            LinkType::Span(SpanLinkType::Reference) => LinkRef::Reference { label, url: target },
            LinkType::Span(SpanLinkType::Unresolved) => LinkRef::Unresolved(target),
            LinkType::AutoLink => LinkRef::AutoLink(target),
            LinkType::Email => LinkRef::Email(target),
        }
    }

    /// The raw text of an unresolved link, to report it as broken.
    pub fn unresolved_text(&self) -> (r: Option<&String>)
        ensures
            match self {
                LinkRef::Unresolved(t) => r == Some(t),
                _ => r is None,
            },
    {
        match self {
            LinkRef::Unresolved(t) => Some(t),
            _ => None,
        }
    }
}

impl ImgRef {
    /// Tags an image by how its target was resolved; see `LinkRef::classify`.
    pub fn classify(link_type: SpanLinkType, target: String, label: String) -> (r: ImgRef)
        ensures
            r == match link_type {
                SpanLinkType::Inline => ImgRef::Inline(target),
                SpanLinkType::Reference => ImgRef::Reference { label, url: target },
                SpanLinkType::Unresolved => ImgRef::Unresolved(target),
            },
    {
        match link_type {
            SpanLinkType::Inline => ImgRef::Inline(target),
            SpanLinkType::Reference => ImgRef::Reference { label, url: target },
            SpanLinkType::Unresolved => ImgRef::Unresolved(target),
        }
    }

    /// The raw text of an unresolved image, to report it as broken.
    pub fn unresolved_text(&self) -> (r: Option<&String>)
        ensures
            match self {
                ImgRef::Unresolved(t) => r == Some(t),
                _ => r is None,
            },
    {
        match self {
            ImgRef::Unresolved(t) => Some(t),
            _ => None,
        }
    }
}

fn copy_range(r: &Range<usize>) -> (c: Range<usize>)
    ensures
        c == *r,
{
    r.start..r.end
}

fn copy_heading(h: &Heading) -> (c: Heading)
    ensures
        c == *h,
{
    Heading {
        id: h.id.clone(),
        level: h.level,
        content: h.content.clone(),
        range: h.range,
        char_range: copy_range(&h.char_range),
    }
}

fn copy_link_def(d: &LinkDef) -> (c: LinkDef)
    ensures
        c == *d,
{
    LinkDef {
        label: d.label.clone(),
        url: d.url.clone(),
        range: d.range,
        char_range: copy_range(&d.char_range),
    }
}

impl Clone for Heading {
    fn clone(&self) -> (c: Self)
        ensures
            c == *self,
    {
        copy_heading(self)
    }
}

impl Clone for LinkDef {
    fn clone(&self) -> (c: Self)
        ensures
            c == *self,
    {
        copy_link_def(self)
    }
}

impl Clone for Link {
    fn clone(&self) -> (c: Self) {
        Link { link_ref: self.link_ref.clone(), range: self.range, char_range: copy_range(&self.char_range) }
    }
}

impl Clone for Img {
    fn clone(&self) -> (c: Self) {
        Img { link_ref: self.link_ref.clone(), range: self.range, char_range: copy_range(&self.char_range) }
    }
}

/// Elements keyed by disjoint byte ranges of one document.
#[verifier::external_body]
pub struct ElementMap {
    map: btree_range_map::RangeMap<usize, ElementInfo>,
}

/// The element that covers each byte offset of an `ElementMap`.
pub uninterp spec fn element_map_contents(m: ElementMap) -> Map<usize, ElementInfo>;

/// `m` with every offset of `[start, end)` mapped to `e`; an empty range changes nothing.
pub open spec fn painted(m: Map<usize, ElementInfo>, start: usize, end: usize, e: ElementInfo) -> Map<
    usize,
    ElementInfo,
> {
    Map::new(
        |p: usize| m.contains_key(p) || (start <= p && p < end),
        |p: usize|
            if start <= p && p < end {
                e
            } else {
                m[p]
            },
    )
}

/// What a lookup of offset `p` in `m` returns.
pub open spec fn found(r: Option<&ElementInfo>, m: Map<usize, ElementInfo>, p: usize) -> bool {
    match r {
        Some(e) => m.contains_key(p) && *e == m[p],
        None => !m.contains_key(p),
    }
}

impl ElementMap {
    /// Relies on RangeMap::new: the map starts empty.
    #[verifier::external_body]
    fn new() -> (r: ElementMap)
        ensures
            element_map_contents(r).dom().len() == 0,
            element_map_contents(r).dom().finite(),
    {
        ElementMap { map: btree_range_map::RangeMap::new() }
    }

    /// Relies on RangeMap::insert: each offset of the range is mapped to the
    /// value, overwriting what covered it; an empty range is ignored.
    #[verifier::external_body]
    fn insert(&mut self, range: Range<usize>, e: ElementInfo)
        ensures
            element_map_contents(*final(self)) == painted(element_map_contents(*old(self)), range.start, range.end, e),
    {
        self.map.insert(range, e)
    }

    /// Relies on RangeMap::get: the value of the range that holds the offset.
    #[verifier::external_body]
    fn get(&self, p: usize) -> (r: Option<&ElementInfo>)
        ensures
            found(r, element_map_contents(*self), p),
    {
        self.map.get(p)
    }
}

/// Offsets just past each newline byte of `b`, in order.
pub open spec fn newline_ends(b: Seq<u8>) -> Seq<int>
    decreases b.len(),
{
    if b.len() == 0 {
        Seq::empty()
    } else if b.last() == 10 {
        newline_ends(b.drop_last()).push(b.len() as int)
    } else {
        newline_ends(b.drop_last())
    }
}

/// For each line of a text, the number of bytes of all lines before it, its
/// terminator included, and one last entry for the end of the text. A last
/// line without a newline is counted as if it had one.
pub open spec fn line_table(b: Seq<u8>) -> Seq<int> {
    seq![0int] + newline_ends(b) + if b.len() > 0 && b.last() != 10 {
        seq![b.len() + 1int]
    } else {
        Seq::empty()
    }
}

pub open spec fn as_ints(s: Seq<usize>) -> Seq<int> {
    s.map_values(|x: usize| x as int)
}

pub open spec fn strictly_increasing(t: Seq<usize>) -> bool {
    forall|i: int, j: int| 0 <= i < j < t.len() ==> t[i] < t[j]
}

/// The index of the last entry of `t` that is at most `pos` (0 if there is none).
pub open spec fn line_of(t: Seq<usize>, pos: int) -> int
    decreases t.len(),
{
    if t.len() <= 1 {
        0
    } else if t.last() <= pos {
        t.len() - 1
    } else {
        line_of(t.drop_last(), pos)
    }
}

proof fn lemma_line_of(t: Seq<usize>, pos: int, k: int)
    requires
        strictly_increasing(t),
        0 <= k < t.len(),
        t[k] <= pos,
        k + 1 == t.len() || pos < t[k + 1],
    ensures
        line_of(t, pos) == k,
    decreases t.len(),
{
    if t.len() > 1 && t.last() > pos {
        assert(k < t.len() - 1);
        lemma_line_of(t.drop_last(), pos, k);
    }
}

/// Holds of the headings whose id is `id`.
pub open spec fn has_id(id: Seq<char>) -> spec_fn(Heading) -> bool {
    |h: Heading| h.id@ == id
}

/// Holds of the link definitions whose label is `label`.
pub open spec fn has_label(label: Seq<char>) -> spec_fn(LinkDef) -> bool {
    |d: LinkDef| d.label@ == label
}

type LinkLabel = String;

type HeadingId = String;

/// Index of the semantic elements of one document by byte offset, by heading
/// id and by link label, with the translation between byte offsets and the
/// editor's rows and columns.
pub struct MarkupLookup {
    /// Element lookup by byte offset.
    pub char_pos_to_element: ElementMap,
    /// Link definitions in the order they were inserted.
    pub link_defs: Vec<LinkDef>,
    /// Headings in the order they were inserted.
    pub headings: Vec<Heading>,
    prev_line_size_sum: Vec<usize>,
    /// Number of leading lines (front matter) left out of the indexed text.
    line_calc_offset: usize,
}

impl MarkupLookup {
    /// The line table: byte offset at which each indexed line starts, then the end.
    pub closed spec fn line_sums(&self) -> Seq<usize> {
        self.prev_line_size_sum@
    }

    pub closed spec fn offset(&self) -> usize {
        self.line_calc_offset
    }

    /// The element that covers each byte offset.
    pub closed spec fn contents(&self) -> Map<usize, ElementInfo> {
        element_map_contents(self.char_pos_to_element)
    }

    /// The headings inserted so far, oldest first.
    pub closed spec fn heading_seq(&self) -> Seq<Heading> {
        self.headings@
    }

    /// The link definitions inserted so far, oldest first.
    pub closed spec fn link_def_seq(&self) -> Seq<LinkDef> {
        self.link_defs@
    }

    pub open spec fn wf(&self) -> bool {
        &&& self.line_sums().len() >= 1
        &&& self.line_sums()[0] == 0
        &&& strictly_increasing(self.line_sums())
        &&& self.offset() + self.line_sums().len() < usize::MAX
    }

    /// One past the last byte that a row of the document can address.
    pub open spec fn text_end(&self) -> usize {
        self.line_sums().last()
    }

    /// The editor position of byte offset `pos`.
    pub open spec fn spec_pos(&self, pos: usize) -> NeovimPos {
        let k = line_of(self.line_sums(), pos as int);
        NeovimPos {
            row: (k + 1 + self.offset()) as usize,
            col: (pos - self.line_sums()[k]) as usize,
        }
    }

    /// The byte offset of an editor position, if its row is an indexed line.
    pub open spec fn spec_char_pos(&self, row: usize, col: usize) -> Option<usize> {
        if row == 0 || row - 1 < self.offset() || row - self.offset() >= self.line_sums().len() {
            None
        } else if self.line_sums()[row - 1 - self.offset()] + col > usize::MAX {
            None
        } else {
            Some((self.line_sums()[row - 1 - self.offset()] + col) as usize)
        }
    }

    pub fn new(source: &str, line_calc_offset: usize) -> (r: Self)
        requires
            source.spec_bytes().len() + line_calc_offset + 3 < usize::MAX,
        ensures
            r.wf(),
            as_ints(r.line_sums()) == line_table(source.spec_bytes()),
            r.offset() == line_calc_offset,
            r.contents().dom().len() == 0,
            r.contents().dom().finite(),
            r.heading_seq().len() == 0,
            r.link_def_seq().len() == 0,
    {
        let bytes = source.as_bytes();
        let mut sums: Vec<usize> = Vec::new();
        sums.push(0);
        let mut i: usize = 0;
        while i < bytes.len()
            invariant
                bytes@ == source.spec_bytes(),
                i <= bytes@.len(),
                bytes@.len() + line_calc_offset + 3 < usize::MAX,
                as_ints(sums@) == seq![0int] + newline_ends(bytes@.take(i as int)),
                1 <= sums@.len() <= i + 1,
                sums@[0] == 0,
                strictly_increasing(sums@),
                forall|j: int| 0 <= j < sums@.len() ==> #[trigger] sums@[j] <= i,
            decreases bytes@.len() - i,
        {
            proof {
                assert(bytes@.take(i + 1).drop_last() =~= bytes@.take(i as int));
            }
            if bytes[i] == 10 {
                let ghost before = sums@;
                sums.push(i + 1);
                proof {
                    assert(as_ints(sums@) =~= as_ints(before).push(i + 1));
                    assert(as_ints(sums@) =~= seq![0int] + newline_ends(bytes@.take(i + 1)));
                }
            } else {
                proof {
                    assert(as_ints(sums@) =~= seq![0int] + newline_ends(bytes@.take(i + 1)));
                }
            }
            i += 1;
        }
        proof {
            assert(bytes@.take(i as int) =~= bytes@);
        }
        let n = bytes.len();
        let ghost before = sums@;
        if n > 0 && bytes[n - 1] != 10 {
            sums.push(n + 1);
            proof {
                assert(as_ints(sums@) =~= as_ints(before).push(n + 1));
            }
        }
        proof {
            assert(as_ints(sums@) =~= line_table(source.spec_bytes()));
        }
        MarkupLookup {
            char_pos_to_element: ElementMap::new(),
            link_defs: Vec::new(),
            headings: Vec::new(),
            prev_line_size_sum: sums,
            line_calc_offset,
        }
    }

    /// The line table; see `line_table`.
    pub fn line_size_sums(&self) -> (r: &Vec<usize>)
        ensures
            r@ == self.line_sums(),
    {
        &self.prev_line_size_sum
    }

    pub fn in_frontmatter(&self, row: usize) -> (r: bool)
        ensures
            r == (row < self.offset()),
    {
        row < self.line_calc_offset
    }

    /// The element under an editor position, if the position is in an indexed
    /// line and an element covers it.
    pub fn element_at(&self, row: usize, col: usize) -> (r: Option<&ElementInfo>)
        requires
            self.wf(),
        ensures
            match self.spec_char_pos(row, col) {
                Some(p) => found(r, self.contents(), p),
                None => r is None,
            },
    {
        match self.row_col_to_char_pos(row, col) {
            Some(p) => self.char_pos_to_element.get(p),
            None => None,
        }
    }

    /// The inclusive editor range of a non-empty half-open byte range.
    pub fn neovim_range(&self, range: &Range<usize>) -> (r: NeovimRange)
        requires
            self.wf(),
            range.start < range.end,
        ensures
            r.start == self.spec_pos(range.start),
            r.end == self.spec_pos((range.end - 1) as usize),
    {
        NeovimRange {
            start: self.char_pos_to_row_col(range.start),
            end: self.char_pos_to_row_col(range.end - 1),
        }
    }

    /// The editor position of a byte offset: the row of the line that holds
    /// it (counting the front matter) and the byte column within that line.
    /// An offset at the start of a line is column 0 of that line.
    pub fn char_pos_to_row_col(&self, pos: usize) -> (r: NeovimPos)
        requires
            self.wf(),
        ensures
            r == self.spec_pos(pos),
            r.row > self.offset(),
    {
        let t = &self.prev_line_size_sum;
        let mut lo: usize = 0;
        let mut hi: usize = t.len();
        while lo + 1 < hi
            invariant
                t@ == self.line_sums(),
                self.wf(),
                lo < hi <= t@.len(),
                t@[lo as int] <= pos,
                hi == t@.len() || pos < t@[hi as int],
            decreases hi - lo,
        {
            let mid = lo + (hi - lo) / 2;
            if t[mid] <= pos {
                lo = mid;
            } else {
                hi = mid;
            }
        }
        proof {
            lemma_line_of(t@, pos as int, lo as int);
        }
        NeovimPos::new(lo + 1 + self.line_calc_offset, pos - t[lo])
    }

    /// The byte offset of an editor position: none for row 0, for a row of
    /// the front matter and for a row past the last line; the column is not
    /// checked against the line's length (none only if the sum overflows).
    pub fn row_col_to_char_pos(&self, row: usize, col: usize) -> (r: Option<usize>)
        requires
            self.wf(),
        ensures
            r == self.spec_char_pos(row, col),
    {
        if row == 0 || self.line_calc_offset > row - 1 {
            return None;
        }
        let row_check = row - 1 - self.line_calc_offset;
        if row_check + 1 >= self.prev_line_size_sum.len() {
            return None;
        }
        self.prev_line_size_sum[row_check].checked_add(col)
    }

    /// The element that covers a byte offset, if any.
    pub fn at_pos(&self, pos: usize) -> (r: Option<&ElementInfo>)
        ensures
            found(r, self.contents(), pos),
    {
        self.char_pos_to_element.get(pos)
    }

    /// Records a heading under its range and appends it to the headings.
    pub fn insert_heading(&mut self, heading: Heading)
        requires
            old(self).wf(),
        ensures
            final(self).wf(),
            final(self).line_sums() == old(self).line_sums(),
            final(self).offset() == old(self).offset(),
            final(self).heading_seq() == old(self).heading_seq().push(heading),
            final(self).link_def_seq() == old(self).link_def_seq(),
            final(self).contents() == painted(old(self).contents(), heading.char_range.start, heading.char_range.end, ElementInfo::Heading(heading)),
    {
        let range = copy_range(&heading.char_range);
        self.headings.push(copy_heading(&heading));
        self.char_pos_to_element.insert(range, ElementInfo::Heading(heading));
    }

    /// Records an image under its range.
    pub fn insert_img(&mut self, img: Img)
        requires
            old(self).wf(),
        ensures
            final(self).wf(),
            final(self).line_sums() == old(self).line_sums(),
            final(self).offset() == old(self).offset(),
            final(self).heading_seq() == old(self).heading_seq(),
            final(self).link_def_seq() == old(self).link_def_seq(),
            final(self).contents() == painted(old(self).contents(), img.char_range.start, img.char_range.end, ElementInfo::Img(img)),
    {
        let range = copy_range(&img.char_range);
        self.char_pos_to_element.insert(range, ElementInfo::Img(img));
    }

    /// Records a link under its range.
    pub fn insert_link(&mut self, link: Link)
        requires
            old(self).wf(),
        ensures
            final(self).wf(),
            final(self).line_sums() == old(self).line_sums(),
            final(self).offset() == old(self).offset(),
            final(self).heading_seq() == old(self).heading_seq(),
            final(self).link_def_seq() == old(self).link_def_seq(),
            final(self).contents() == painted(old(self).contents(), link.char_range.start, link.char_range.end, ElementInfo::Link(link)),
    {
        let range = copy_range(&link.char_range);
        self.char_pos_to_element.insert(range, ElementInfo::Link(link));
    }

    /// Records a link definition under its range and appends it to the definitions.
    pub fn insert_link_def(&mut self, link_def: LinkDef)
        requires
            old(self).wf(),
        ensures
            final(self).wf(),
            final(self).line_sums() == old(self).line_sums(),
            final(self).offset() == old(self).offset(),
            final(self).heading_seq() == old(self).heading_seq(),
            final(self).link_def_seq() == old(self).link_def_seq().push(link_def),
            final(self).contents() == painted(old(self).contents(), link_def.char_range.start, link_def.char_range.end, ElementInfo::LinkDef(link_def)),
    {
        let range = copy_range(&link_def.char_range);
        self.link_defs.push(copy_link_def(&link_def));
        self.char_pos_to_element.insert(range, ElementInfo::LinkDef(link_def));
    }

    /// Every heading inserted with this id, oldest first.
    pub fn headings_with_id(&self, id: &HeadingId) -> (r: Vec<Heading>)
        ensures
            r@ == self.heading_seq().filter(has_id(id@)),
    {
        let mut r: Vec<Heading> = Vec::new();
        proof {
            reveal(Seq::filter);
            assert(self.headings@.take(0) =~= Seq::<Heading>::empty());
        }
        let mut i: usize = 0;
        while i < self.headings.len()
            invariant
                i <= self.headings@.len(),
                r@ == self.headings@.take(i as int).filter(has_id(id@)),
            decreases self.headings@.len() - i,
        {
            proof {
                assert(self.headings@.take(i + 1) =~= self.headings@.take(i as int).push(self.headings@[i as int]));
                self.headings@.take(i as int).lemma_filter_push(self.headings@[i as int], has_id(id@));
            }
            if self.headings[i].id == *id {
                r.push(copy_heading(&self.headings[i]));
            }
            i += 1;
        }
        proof {
            assert(self.headings@.take(i as int) =~= self.headings@);
        }
        r
    }

    /// Every link definition inserted with this label, oldest first.
    pub fn link_defs_with_label(&self, label: &LinkLabel) -> (r: Vec<LinkDef>)
        ensures
            r@ == self.link_def_seq().filter(has_label(label@)),
    {
        let mut r: Vec<LinkDef> = Vec::new();
        proof {
            reveal(Seq::filter);
            assert(self.link_defs@.take(0) =~= Seq::<LinkDef>::empty());
        }
        let mut i: usize = 0;
        while i < self.link_defs.len()
            invariant
                i <= self.link_defs@.len(),
                r@ == self.link_defs@.take(i as int).filter(has_label(label@)),
            decreases self.link_defs@.len() - i,
        {
            proof {
                assert(self.link_defs@.take(i + 1) =~= self.link_defs@.take(i as int).push(self.link_defs@[i as int]));
                self.link_defs@.take(i as int).lemma_filter_push(self.link_defs@[i as int], has_label(label@));
            }
            if self.link_defs[i].label == *label {
                r.push(copy_link_def(&self.link_defs[i]));
            }
            i += 1;
        }
        proof {
            assert(self.link_defs@.take(i as int) =~= self.link_defs@);
        }
        r
    }
}

/// Converting a byte offset of the document to an editor position and back
/// gives the offset again.
pub proof fn lemma_round_trip(l: MarkupLookup, p: usize)
    requires
        l.wf(),
        p < l.text_end(),
    ensures
        l.spec_char_pos(l.spec_pos(p).row, l.spec_pos(p).col) == Some(p),
{
    let t = l.line_sums();
    let k = line_of(t, p as int);
    lemma_line_of_bounds(t, p as int);
    if k + 1 == t.len() {
        assert(t[k] == t.last());
    }
}

proof fn lemma_line_of_bounds(t: Seq<usize>, pos: int)
    requires
        strictly_increasing(t),
        t.len() >= 1,
        t[0] <= pos,
    ensures
        0 <= line_of(t, pos) < t.len(),
        t[line_of(t, pos)] <= pos,
        line_of(t, pos) + 1 < t.len() ==> pos < t[line_of(t, pos) + 1],
    decreases t.len(),
{
    if t.len() > 1 && t.last() > pos {
        lemma_line_of_bounds(t.drop_last(), pos);
        let k = line_of(t, pos);
        if k + 1 == t.len() - 1 {
            assert(t[k + 1] == t.last());
        }
    }
}

/// No position on a row of the front matter, nor on row 0, has a byte offset.
pub proof fn lemma_front_matter_excluded(l: MarkupLookup, row: usize, col: usize)
    requires
        row <= l.offset(),
    ensures
        l.spec_char_pos(row, col) is None,
{
}

/// After two inserts with disjoint ranges, each offset of either range finds
/// the element inserted with it.
pub proof fn lemma_disjoint_inserts(
    m: Map<usize, ElementInfo>,
    a: Range<usize>,
    x: ElementInfo,
    b: Range<usize>,
    y: ElementInfo,
    p: usize,
)
    requires
        a.end <= b.start || b.end <= a.start,
    ensures
        a.start <= p < a.end ==> painted(painted(m, a.start, a.end, x), b.start, b.end, y)[p] == x,
        b.start <= p < b.end ==> painted(painted(m, a.start, a.end, x), b.start, b.end, y)[p] == y,
        (a.start <= p < a.end || b.start <= p < b.end) ==> painted(painted(m, a.start, a.end, x), b.start, b.end, y).contains_key(p),
{
}

} // verus!
