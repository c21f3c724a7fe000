use crate::lookup::{Heading, LinkDef};
use vstd::prelude::*;

verus! {

pub enum ContentInfo {
    Post(PostInfo),
    Standalone(StandaloneInfo),
    Constant(ConstantInfo),
    Series(SeriesInfo),
    Tag(TagInfo),
    Img(ImgInfo),
    Heading(HeadingInfo),
    LinkDef(LinkDefInfo),
    BrokenLink(BrokenLinkInfo),
    DivClass(DivClassInfo),
    Symbol(SymbolInfo),
}

#[derive(Debug, PartialEq, Eq)]
pub struct DivClassInfo {
    pub name: &'static str,
}

#[derive(Debug, PartialEq, Eq)]
pub struct SymbolInfo {
    pub sym: &'static str,
}

#[derive(Debug, PartialEq, Eq)]
pub struct TagInfo {
    pub id: String,
    pub name: String,
    pub url: String,
    pub posts: Vec<PostInfo>,
}

#[derive(Debug, PartialEq, Eq)]
pub struct PostInfo {
    pub title: String,
    pub path: String,
    pub created: String,
    pub url: String,
    pub tags: Vec<String>,
    pub series: Option<String>,
}

#[derive(Debug, PartialEq, Eq)]
pub struct StandaloneInfo {
    pub title: String,
    pub url: String,
    pub path: String,
}

#[derive(Debug, PartialEq, Eq)]
pub struct ConstantInfo {
    pub title: String,
    pub url: String,
}

#[derive(Debug)]
pub struct UrlInfo {
    pub title: String,
    pub url: String,
}

#[derive(Debug, PartialEq, Eq)]
pub struct SeriesInfo {
    pub id: String,
    pub title: String,
    pub url: String,
    pub path: String,
    pub posts: Vec<PostInfo>,
}

#[derive(Debug, PartialEq, Eq)]
pub enum HeadingContext {
    OtherFile { path: String, url: String, start_row: usize, end_row: usize },
    SameFile { start_row: usize, end_row: usize },
}

#[derive(Debug, PartialEq, Eq)]
pub struct HeadingInfo {
    pub id: String,
    pub content: String,
    pub level: u16,
    pub context: HeadingContext,
}

#[derive(Debug, PartialEq, Eq)]
pub struct LinkDefInfo {
    pub label: String,
    pub url: String,
    pub start_row: usize,
    pub end_row: usize,
}

#[derive(Debug, PartialEq, Eq)]
pub struct BrokenLinkInfo {
    pub tag: String,
    pub row: usize,
}

#[derive(Debug, PartialEq, Eq)]
pub struct ImgInfo {
    pub url: String,
    pub modified: u64,
}

/// A reference to a post of the site: its index in `Site::posts`.
pub type PostRef = usize;

/// A tag as the content model holds it; `url` is the tag page's href.
pub struct Tag {
    pub id: String,
    pub name: String,
    pub url: String,
}

/// A series as the content model holds it, with its posts in order.
pub struct SeriesItem {
    pub id: String,
    pub title: String,
    pub url: String,
    pub path: String,
    pub posts: Vec<PostRef>,
}

/// The posts of the site, each already described for the templates.
pub struct Site {
    pub posts: Vec<PostInfo>,
}

/// Every reference names a post of the site.
pub open spec fn refs_valid(refs: Seq<PostRef>, site: &Site) -> bool {
    forall|i: int| 0 <= i < refs.len() ==> #[trigger] refs[i] < site.posts@.len()
}

/// Two descriptions of one post with the same fields.
pub open spec fn same_post(a: PostInfo, b: PostInfo) -> bool {
    &&& a.title == b.title
    &&& a.path == b.path
    &&& a.created == b.created
    &&& a.url == b.url
    &&& a.tags@ == b.tags@
    &&& a.series == b.series
}

/// `posts` describes the posts that `refs` name, in the order of `refs`.
pub open spec fn posts_of(posts: Seq<PostInfo>, refs: Seq<PostRef>, site: &Site) -> bool {
    &&& posts.len() == refs.len()
    &&& forall|i: int| 0 <= i < refs.len() ==> same_post(#[trigger] posts[i], site.posts@[refs[i] as int])
}

fn copy_strings(v: &Vec<String>) -> (r: Vec<String>)
    ensures
        r@ == v@,
{
    let mut r: Vec<String> = Vec::new();
    let mut i: usize = 0;
    while i < v.len()
        invariant
            i <= v@.len(),
            r@ == v@.take(i as int),
        decreases v@.len() - i,
    {
        r.push(v[i].clone());
        proof {
            assert(r@ =~= v@.take(i + 1));
        }
        i += 1;
    }
    proof {
        assert(v@.take(i as int) =~= v@);
    }
    r
}

fn copy_post(p: &PostInfo) -> (r: PostInfo)
    ensures
        same_post(r, *p),
{
    let series = match &p.series {
        Some(s) => Some(s.clone()),
        None => None,
    };
    PostInfo {
        title: p.title.clone(),
        path: p.path.clone(),
        created: p.created.clone(),
        url: p.url.clone(),
        tags: copy_strings(&p.tags),
        series,
    }
}

fn collect_posts(refs: &[PostRef], site: &Site) -> (r: Vec<PostInfo>)
    requires
        refs_valid(refs@, site),
    ensures
        posts_of(r@, refs@, site),
{
    let mut r: Vec<PostInfo> = Vec::new();
    let mut i: usize = 0;
    while i < refs.len()
        invariant
            i <= refs@.len(),
            refs_valid(refs@, site),
            posts_of(r@, refs@.take(i as int), site),
        decreases refs@.len() - i,
    {
        let k = refs[i];
        assert(k == refs@[i as int]);
        r.push(copy_post(&site.posts[k]));
        i += 1;
    }
    proof {
        assert(refs@.take(i as int) =~= refs@);
    }
    r
}

impl TagInfo {
    /// The tag with the posts that `posts` names, in that order.
    pub fn from_tag(tag: &Tag, posts: &[PostRef], site: &Site) -> (r: Self)
        requires
            refs_valid(posts@, site),
        ensures
            r.id == tag.id,
            r.name == tag.name,
            r.url == tag.url,
            posts_of(r.posts@, posts@, site),
    {
        TagInfo {
            id: tag.id.clone(),
            name: tag.name.clone(),
            url: tag.url.clone(),
            posts: collect_posts(posts, site),
        }
    }
}

impl SeriesInfo {
    /// The series with its posts, in the series' order.
    pub fn from(item: &SeriesItem, site: &Site) -> (r: Self)
        requires
            refs_valid(item.posts@, site),
        ensures
            r.id == item.id,
            r.title == item.title,
            r.url == item.url,
            r.path == item.path,
            posts_of(r.posts@, item.posts@, site),
    {
        SeriesInfo {
            id: item.id.clone(),
            title: item.title.clone(),
            url: item.url.clone(),
            path: item.path.clone(),
            posts: collect_posts(item.posts.as_slice(), site),
        }
    }
}

impl HeadingInfo {
    pub fn from_heading(heading: &Heading, context: HeadingContext) -> (r: Self)
        ensures
            r.id == heading.id,
            r.content == heading.content,
            r.level == heading.level,
            r.context == context,
    {
        HeadingInfo {
            id: heading.id.clone(),
            content: heading.content.clone(),
            level: heading.level,
            context,
        }
    }
}

impl LinkDefInfo {
    pub fn from_link_def(def: &LinkDef, start_row: usize, end_row: usize) -> (r: Self)
        ensures
            r.label == def.label,
            r.url == def.url,
            r.start_row == start_row,
            r.end_row == end_row,
    {
        LinkDefInfo { label: def.label.clone(), url: def.url.clone(), start_row, end_row }
    }
}

impl BrokenLinkInfo {
    pub fn from_link(tag: &str, row: usize) -> (r: Self)
        ensures
            r.tag@ == tag@,
            r.row == row,
    {
        BrokenLinkInfo { tag: String::from_str(tag), row }
    }
}

} // verus!
