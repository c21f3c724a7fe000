use vstd::prelude::*;

verus! {

/// The latest commit that touched a file. `dt` is the commit time in seconds
/// since the Unix epoch, `id` the commit id in hex.
#[derive(Debug, PartialEq, Eq)]
pub struct LatestCommitInfo {
    pub dt: i64,
    pub id: String,
    /// True if more than one commit touched the file.
    pub is_revision: bool,
}

fn copy_info(c: &LatestCommitInfo) -> (r: LatestCommitInfo)
    ensures
        r == *c,
{
    LatestCommitInfo { dt: c.dt, id: c.id.clone(), is_revision: c.is_revision }
}

/// The entry of a file after one more commit touched it: a newer commit
/// replaces the entry, an older one only marks the file as revised.
pub open spec fn updated(prev: Option<LatestCommitInfo>, id: String, dt: i64) -> LatestCommitInfo {
    match prev {
        None => LatestCommitInfo { dt, id, is_revision: false },
        Some(c) => if dt > c.dt {
            LatestCommitInfo { dt, id, is_revision: true }
        } else {
            LatestCommitInfo { is_revision: true, ..c }
        },
    }
}

pub open spec fn keys_unique(s: Seq<(String, LatestCommitInfo)>) -> bool {
    forall|i: int, j: int| 0 <= i < j < s.len() ==> (#[trigger] s[i]).0@ != (#[trigger] s[j]).0@
}

/// The entries as a map from path to entry.
pub open spec fn entry_map(s: Seq<(String, LatestCommitInfo)>) -> Map<Seq<char>, LatestCommitInfo> {
    Map::new(
        |k: Seq<char>| exists|i: int| 0 <= i < s.len() && (#[trigger] s[i]).0@ == k,
        |k: Seq<char>| s[choose|i: int| 0 <= i < s.len() && (#[trigger] s[i]).0@ == k].1,
    )
}

/// For each file path, the latest commit that touched it.
pub struct LatestCommits {
    commits: Vec<(String, LatestCommitInfo)>,
}

impl LatestCommits {
    pub closed spec fn wf(&self) -> bool {
        keys_unique(self.commits@)
    }

    pub closed spec fn map(&self) -> Map<Seq<char>, LatestCommitInfo> {
        entry_map(self.commits@)
    }

    pub fn new() -> (r: Self)
        ensures
            r.wf(),
            r.map() == Map::<Seq<char>, LatestCommitInfo>::empty(),
    {
        let r = LatestCommits { commits: Vec::new() };
        proof {
            assert(r.map() =~= Map::<Seq<char>, LatestCommitInfo>::empty());
        }
        r
    }

    fn find(&self, path: &String) -> (r: Option<usize>)
        ensures
            match r {
                Some(i) => i < self.commits@.len() && self.commits@[i as int].0@ == path@,
                None => forall|i: int| 0 <= i < self.commits@.len() ==> (#[trigger] self.commits@[i]).0@ != path@,
            },
    {
        let mut i: usize = 0;
        while i < self.commits.len()
            invariant
                i <= self.commits@.len(),
                forall|j: int| 0 <= j < i ==> (#[trigger] self.commits@[j]).0@ != path@,
            decreases self.commits@.len() - i,
        {
            if self.commits[i].0 == *path {
                return Some(i);
            }
            i += 1;
        }
        None
    }

    /// Records that the commit `id` made at `dt` touched the file at `path`.
    pub fn record(&mut self, path: String, id: String, dt: i64)
        requires
            old(self).wf(),
        ensures
            final(self).wf(),
            final(self).map() == old(self).map().insert(path@, updated(if old(self).map().contains_key(path@) { Some(old(self).map()[path@]) } else { None }, id, dt)),
    {
        let ghost old_map = self.map();
        let ghost s0 = self.commits@;
        match self.find(&path) {
            Some(i) => {
                proof {
                    assert(old_map.contains_key(path@));
                    let c = choose|j: int| 0 <= j < s0.len() && (#[trigger] s0[j]).0@ == path@;
                    assert(c == i);
                }
                let prev = copy_info(&self.commits[i].1);
                let next = if dt > prev.dt {
                    LatestCommitInfo { dt, id, is_revision: true }
                } else {
                    LatestCommitInfo { dt: prev.dt, id: prev.id, is_revision: true }
                };
                self.commits.set(i, (path, next));
                proof {
                    let s1 = self.commits@;
                    assert forall|a: int, b: int| 0 <= a < b < s1.len() implies (#[trigger] s1[a]).0@ != (#[trigger] s1[b]).0@ by {
                        assert(s0[a].0@ != s0[b].0@);
                    }
                    assert forall|k: Seq<char>| #[trigger] entry_map(s1).contains_key(k) == old_map.insert(path@, next).contains_key(k) by {
                        if exists|j: int| 0 <= j < s0.len() && (#[trigger] s0[j]).0@ == k {
                            let j = choose|j: int| 0 <= j < s0.len() && (#[trigger] s0[j]).0@ == k;
                            if j != i {
                                assert(s1[j].0@ == k);
                            } else {
                                assert(s1[j].0@ == k);
                            }
                        }
                        if exists|j: int| 0 <= j < s1.len() && (#[trigger] s1[j]).0@ == k {
                            let j = choose|j: int| 0 <= j < s1.len() && (#[trigger] s1[j]).0@ == k;
                            if j != i {
                                assert(s0[j].0@ == k);
                            }
                        }
                    }
                    assert forall|k: Seq<char>| #[trigger] entry_map(s1).contains_key(k) implies entry_map(s1)[k] == old_map.insert(path@, next)[k] by {
                        let j1 = choose|j: int| 0 <= j < s1.len() && (#[trigger] s1[j]).0@ == k;
                        if k == path@ {
                            assert(s1[i as int].0@ == k);
                            assert(j1 == i);
                        } else {
                            assert(j1 != i);
                            assert(s0[j1].0@ == k);
                            let j0 = choose|j: int| 0 <= j < s0.len() && (#[trigger] s0[j]).0@ == k;
                            assert(j0 == j1);
                        }
                    }
                    assert(entry_map(s1) =~= old_map.insert(path@, next));
                }
            },
            None => {
                proof {
                    assert(!old_map.contains_key(path@));
                }
                let next = LatestCommitInfo { dt, id, is_revision: false };
                self.commits.push((path, next));
                proof {
                    let s1 = self.commits@;
                    let n = s0.len() as int;
                    assert forall|a: int, b: int| 0 <= a < b < s1.len() implies (#[trigger] s1[a]).0@ != (#[trigger] s1[b]).0@ by {
                        if b < n {
                            assert(s0[a].0@ != s0[b].0@);
                        } else {
                            assert(s0[a].0@ != path@);
                        }
                    }
                    assert forall|k: Seq<char>| #[trigger] entry_map(s1).contains_key(k) == old_map.insert(path@, next).contains_key(k) by {
                        if exists|j: int| 0 <= j < s0.len() && (#[trigger] s0[j]).0@ == k {
                            let j = choose|j: int| 0 <= j < s0.len() && (#[trigger] s0[j]).0@ == k;
                            assert(s1[j].0@ == k);
                        }
                        if k == path@ {
                            assert(s1[n].0@ == k);
                        }
                        if exists|j: int| 0 <= j < s1.len() && (#[trigger] s1[j]).0@ == k {
                            let j = choose|j: int| 0 <= j < s1.len() && (#[trigger] s1[j]).0@ == k;
                            if j < n {
                                assert(s0[j].0@ == k);
                            }
                        }
                    }
                    assert forall|k: Seq<char>| #[trigger] entry_map(s1).contains_key(k) implies entry_map(s1)[k] == old_map.insert(path@, next)[k] by {
                        let j1 = choose|j: int| 0 <= j < s1.len() && (#[trigger] s1[j]).0@ == k;
                        if k == path@ {
                            assert(s1[n].0@ == k);
                            assert(j1 == n);
                        } else {
                            assert(j1 < n);
                            assert(s0[j1].0@ == k);
                            let j0 = choose|j: int| 0 <= j < s0.len() && (#[trigger] s0[j]).0@ == k;
                            assert(j0 == j1);
                        }
                    }
                    assert(entry_map(s1) =~= old_map.insert(path@, next));
                }
            },
        }
    }

    /// The latest commit of the file at `path`, if any commit touched it.
    pub fn get_path(&self, path: &String) -> (r: Option<&LatestCommitInfo>)
        requires
            self.wf(),
        ensures
            match r {
                Some(c) => self.map().contains_key(path@) && *c == self.map()[path@],
                None => !self.map().contains_key(path@),
            },
    {
        match self.find(path) {
            Some(i) => {
                proof {
                    let s0 = self.commits@;
                    let c = choose|j: int| 0 <= j < s0.len() && (#[trigger] s0[j]).0@ == path@;
                    assert(s0[i as int].0@ == path@);
                    assert(c == i);
                }
                Some(&self.commits[i].1)
            },
            None => None,
        }
    }
}

/// Commits whose changes do not count as revisions of the files they touch.
pub open spec fn ignored_commit_ids() -> Seq<Seq<char>> {
    seq![
        "011cebb16131566a186b1fe7c8ba884890a688d6"@,
        "babfc47475c92b8566fe9cba2eaa38af2376fd09"@,
        "48a1238cba939b031d68ce9069b1f31a731017e4"@,
        "67bc27e0804bd0219599727ae50d5976a760d821"@,
        "9208bc3505c056335695112f127ca70d0c20b79e"@,
        "80ca420bad3085c5d803df4c78e683f36f22c5c4"@,
        "cffe82c533d220840743301b6e2db6917646ebfb"@,
        "fd2f5d679d52132aacb603c3aa7752feeaeb1339"@,
        "de126c069c9356019c9f743998f4022ee9e89a6c"@,
        "099e3ffca0246c873a37f332dda0d27e0fe9c39a"@,
        "ffcc7fb0a323bd1b4c181aaf8bc2236d0bf34529"@,
        "dbbd685327e956deae2b3ed7d8431d74c137a6c9"@,
        "52025a7683b2f882ff800eeb6d4e874cab2f8aa2"@,
        "9074ed5f7aa581bd1110555379a3e9cbdd799517"@,
        "b5310570e82f3b89792a5987214344627b4f8f3b"@
    ]
}

/// The set of commits to skip when collecting the latest commit of each
/// file; built once and read only afterwards.
pub struct CommitFilter {
    ignored: Vec<String>,
}

impl CommitFilter {
    pub closed spec fn ignored(&self) -> Seq<Seq<char>> {
        self.ignored@.map_values(|s: String| s@)
    }

    pub fn new() -> (r: Self)
        ensures
            r.ignored() == ignored_commit_ids(),
    {
        let mut ignored: Vec<String> = Vec::new();
        // Enclose titles in quotes
        ignored.push(String::from_str("011cebb16131566a186b1fe7c8ba884890a688d6"));
        // Rework tags
        ignored.push(String::from_str("babfc47475c92b8566fe9cba2eaa38af2376fd09"));
        // Minor corrections
        ignored.push(String::from_str("48a1238cba939b031d68ce9069b1f31a731017e4"));
        // Recommended posts
        ignored.push(String::from_str("67bc27e0804bd0219599727ae50d5976a760d821"));
        // Content update after rust rewrite
        ignored.push(String::from_str("9208bc3505c056335695112f127ca70d0c20b79e"));
        // Better image handling
        ignored.push(String::from_str("80ca420bad3085c5d803df4c78e683f36f22c5c4"));
        // Reorganize tags
        ignored.push(String::from_str("cffe82c533d220840743301b6e2db6917646ebfb"));
        // Formatting and other small fixes
        ignored.push(String::from_str("fd2f5d679d52132aacb603c3aa7752feeaeb1339"));
        // Recommended posts
        ignored.push(String::from_str("de126c069c9356019c9f743998f4022ee9e89a6c"));
        // Recommended posts
        ignored.push(String::from_str("099e3ffca0246c873a37f332dda0d27e0fe9c39a"));
        // Favorite system
        ignored.push(String::from_str("ffcc7fb0a323bd1b4c181aaf8bc2236d0bf34529"));
        // Add to favorite
        ignored.push(String::from_str("dbbd685327e956deae2b3ed7d8431d74c137a6c9"));
        // Migrate from ad-hoc inline code language spec to Djot attributes
        ignored.push(String::from_str("52025a7683b2f882ff800eeb6d4e874cab2f8aa2"));
        // Rework tags a little
        ignored.push(String::from_str("9074ed5f7aa581bd1110555379a3e9cbdd799517"));
        // Use `{=rust}` instead of `{lang=rust}` for inline highlighting
        ignored.push(String::from_str("b5310570e82f3b89792a5987214344627b4f8f3b"));
        let r = CommitFilter { ignored };
        proof {
            assert(r.ignored() =~= ignored_commit_ids());
        }
        r
    }

    /// Whether the commit with this hex id is one to skip.
    pub fn is_ignored(&self, id: &String) -> (r: bool)
        ensures
            r == self.ignored().contains(id@),
    {
        let mut i: usize = 0;
        while i < self.ignored.len()
            invariant
                i <= self.ignored@.len(),
                forall|j: int| 0 <= j < i ==> self.ignored()[j] != id@,
            decreases self.ignored@.len() - i,
        {
            if self.ignored[i] == *id {
                proof {
                    assert(self.ignored()[i as int] == id@);
                }
                return true;
            }
            i += 1;
        }
        false
    }
}

/// The markup languages of content files.
#[derive(Debug, PartialEq, Eq, Structural, Clone, Copy)]
pub enum MarkupType {
    Markdown,
    Djot,
}

pub open spec fn markup_of(ext: Seq<char>) -> Option<MarkupType> {
    if ext == "markdown"@ || ext == "md"@ {
        Some(MarkupType::Markdown)
    } else if ext == "dj"@ {
        Some(MarkupType::Djot)
    } else {
        None
    }
}

impl MarkupType {
    /// The markup language of a file extension, if it is one.
    pub fn from_extension(ext: &String) -> (r: Option<MarkupType>)
        ensures
            r == markup_of(ext@),
    {
        if *ext == String::from_str("markdown") || *ext == String::from_str("md") {
            Some(MarkupType::Markdown)
        } else if *ext == String::from_str("dj") {
            Some(MarkupType::Djot)
        } else {
            None
        }
    }
}

/// Whether a change to a file with this extension counts: files without an
/// extension and markup files do, others do not.
pub fn tracks_extension(ext: Option<&String>) -> (r: bool)
    ensures
        r == match ext {
            None => true,
            Some(e) => markup_of(e@) is Some,
        },
{
    match ext {
        None => true,
        Some(e) => MarkupType::from_extension(e).is_some(),
    }
}

/// What the templates are given of a file's latest commit.
#[derive(Debug)]
pub struct CommitContext {
    pub id: String,
    pub short_id: String,
    pub dt: i64,
    pub is_revision: bool,
}

/// The first `n` characters of `s`, or all of `s` if it is shorter.
pub open spec fn prefix(s: Seq<char>, n: int) -> Seq<char> {
    if s.len() <= n {
        s
    } else {
        s.take(n)
    }
}

fn take_chars(s: &String, n: usize) -> (r: String)
    ensures
        r@ == prefix(s@, n as int),
{
    let mut out = String::new();
    let mut count: usize = 0;
    for c in it: s.as_str().chars()
        invariant
            it.seq() == s@,
            count <= n,
            count == if it.index() <= n { it.index() as int } else { n as int },
            out@ == prefix(s@.take(it.index() as int), n as int),
    {
        if count < n {
            crate::ident::push_char(&mut out, c);
            count += 1;
            proof {
                assert(out@ =~= prefix(s@.take(it.index() + 1), n as int));
            }
        } else {
            proof {
                assert(prefix(s@.take(it.index() + 1), n as int) =~= prefix(s@.take(it.index() as int), n as int));
            }
        }
    }
    proof {
        assert(s@.take(s@.len() as int) =~= s@);
    }
    out
}

impl CommitContext {
    /// The context of a commit: its id, the id's first seven characters,
    /// its time and whether the file was revised.
    pub fn from(info: &LatestCommitInfo) -> (r: Self)
        ensures
            r.id == info.id,
            r.short_id@ == prefix(info.id@, 7),
            r.dt == info.dt,
            r.is_revision == info.is_revision,
    {
        CommitContext {
            id: info.id.clone(),
            short_id: take_chars(&info.id, 7),
            dt: info.dt,
            is_revision: info.is_revision,
        }
    }
}

} // verus!
