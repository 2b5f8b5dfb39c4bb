use vstd::prelude::*;

use crate::paths::{dir_of, join_path, join_segments, joined, joined_segments, stays_inside, stays_inside_path};
use crate::prefix::string_views;

verus! {

/// The index of the first segment equal to `p` at or after `i`, or
/// `segs.len()` where there is none.
pub open spec fn find_segment(segs: Seq<Seq<char>>, p: Seq<char>, i: int) -> int
    decreases segs.len() - i,
{
    if i < 0 || i >= segs.len() {
        segs.len() as int
    } else if segs[i] == p {
        i
    } else {
        find_segment(segs, p, i + 1)
    }
}

/// The file a request path is rewritten to by the asset rule: the path from
/// the first segment equal to `prefix` on, under `root`. `None` where no
/// segment equals `prefix`, or where that path would leave `root`.
pub open spec fn asset_target(root: Seq<char>, prefix: Seq<char>, segs: Seq<Seq<char>>) -> Option<
    Seq<char>,
> {
    let k = find_segment(segs, prefix, 0);
    let rel = joined_segments(segs.subrange(k, segs.len() as int));
    if k < segs.len() && stays_inside(rel) {
        Some(joined(root, rel))
    } else {
        None
    }
}

/// `path` names something under `root`: the directory followed by a relative
/// path that stays inside it.
pub open spec fn is_under(path: Seq<char>, root: Seq<char>) -> bool {
    exists|rel: Seq<char>| stays_inside(rel) && path == dir_of(root) + rel
}

/// How a request is answered. Every answer is a file served with a success
/// status: the router never answers "not found".
#[derive(Debug, PartialEq, Eq)]
pub enum RouteOutcome {
    /// The requested path itself, under the root.
    Literal(String),
    /// The path rewritten by the asset rule.
    Asset(String),
    /// The entry document.
    Entry(String),
}

/// Decides what a static server answers when a request misses a file:
/// first the literal path, then (with an asset prefix) the rewritten path,
/// and for every remaining miss the entry document.
pub struct FallbackRouter {
    /// The served directory.
    pub root: String,
    /// The segment of the asset rule, if that rule is on.
    pub asset_prefix: Option<String>,
    /// The path of the entry document.
    pub entry: String,
}

impl FallbackRouter {
    /// A router over `root` whose entry document is `root/entry_document`.
    pub fn new(root: String, asset_prefix: Option<String>, entry_document: &str) -> (r: Self)
        ensures
            r.root@ == root@,
            r.asset_prefix == asset_prefix,
            r.entry@ == joined(root@, entry_document@),
    {
        let entry = join_path(root.as_str(), entry_document);
        FallbackRouter { root, asset_prefix, entry }
    }

    /// The file a request path names directly, unless its path would leave
    /// the root.
    pub open spec fn literal_spec(&self, segs: Seq<Seq<char>>) -> Option<Seq<char>> {
        if stays_inside(joined_segments(segs)) {
            Some(joined(self.root@, joined_segments(segs)))
        } else {
            None
        }
    }

    /// The file the asset rule rewrites a request path to, if the rule is on
    /// and applies.
    pub open spec fn asset_spec(&self, segs: Seq<Seq<char>>) -> Option<Seq<char>> {
        match self.asset_prefix {
            Some(p) => asset_target(self.root@, p@, segs),
            None => None,
        }
    }

    /// The answer to a request with path `segs`, given whether the literal
    /// file exists and whether the rewritten file exists.
    pub open spec fn resolve_spec(
        &self,
        segs: Seq<Seq<char>>,
        literal_found: bool,
        asset_found: bool,
    ) -> (RouteKind, Seq<char>) {
        match (self.literal_spec(segs), self.asset_spec(segs)) {
            (Some(l), _) if literal_found => (RouteKind::Literal, l),
            (_, Some(a)) if asset_found => (RouteKind::Asset, a),
            _ => (RouteKind::Entry, self.entry@),
        }
    }

    /// The file a request path names directly, unless its path would leave
    /// the root.
    pub fn literal_path(&self, segments: &Vec<String>) -> (r: Option<String>)
        ensures
            match r {
                Some(s) => self.literal_spec(string_views(segments@)) == Some(s@),
                None => self.literal_spec(string_views(segments@)) is None,
            },
            r matches Some(s) ==> is_under(s@, self.root@),
    {
        let rel = join_segments(segments, 0);
        assert(string_views(segments@).subrange(0, segments@.len() as int) =~= string_views(
            segments@,
        ));
        if stays_inside_path(rel.as_str()) {
            let r = join_path(self.root.as_str(), rel.as_str());
            assert(r@ == dir_of(self.root@) + rel@);
            Some(r)
        } else {
            None
        }
    }

    /// The file the asset rule rewrites a request path to, if the rule is on,
    /// some segment equals its prefix, and the rewritten path stays under the
    /// root.
    pub fn asset_path(&self, segments: &Vec<String>) -> (r: Option<String>)
        ensures
            match r {
                Some(s) => self.asset_spec(string_views(segments@)) == Some(s@),
                None => self.asset_spec(string_views(segments@)) is None,
            },
            r matches Some(s) ==> is_under(s@, self.root@),
    {
        let prefix = match &self.asset_prefix {
            Some(p) => p,
            None => {
                return None;
            },
        };
        let ghost segs = string_views(segments@);
        let mut k: usize = 0;
        while k < segments.len() && !(segments[k] == *prefix)
            invariant
                k <= segments@.len(),
                segs == string_views(segments@),
                find_segment(segs, prefix@, 0) == find_segment(segs, prefix@, k as int),
            decreases segments@.len() - k,
        {
            assert(segs[k as int] != prefix@);
            k = k + 1;
        }
        if k == segments.len() {
            return None;
        }
        assert(segs[k as int] == prefix@);
        let rel = join_segments(segments, k);
        if !stays_inside_path(rel.as_str()) {
            return None;
        }
        let r = join_path(self.root.as_str(), rel.as_str());
        assert(r@ == dir_of(self.root@) + rel@);
        Some(r)
    }

    /// The answer to a request with path `segments`: the literal file when it
    /// stays under the root and exists; else the rewritten file when the asset
    /// rule applies and that file exists; else the entry document.
    pub fn resolve(&self, segments: &Vec<String>, literal_found: bool, asset_found: bool) -> (r:
        RouteOutcome)
        ensures
            r.kind() == self.resolve_spec(string_views(segments@), literal_found, asset_found).0,
            r.path_spec() == self.resolve_spec(string_views(segments@), literal_found, asset_found).1,
    {
        if literal_found {
            if let Some(l) = self.literal_path(segments) {
                return RouteOutcome::Literal(l);
            }
        }
        match self.asset_path(segments) {
            Some(a) => {
                if asset_found {
                    RouteOutcome::Asset(a)
                } else {
                    RouteOutcome::Entry(self.entry.clone())
                }
            },
            None => RouteOutcome::Entry(self.entry.clone()),
        }
    }
}

/// Which of the three answers a `RouteOutcome` is.
pub enum RouteKind {
    Literal,
    Asset,
    Entry,
}

impl RouteOutcome {
    pub open spec fn kind(&self) -> RouteKind {
        match self {
            RouteOutcome::Literal(_) => RouteKind::Literal,
            RouteOutcome::Asset(_) => RouteKind::Asset,
            RouteOutcome::Entry(_) => RouteKind::Entry,
        }
    }

    pub open spec fn path_spec(&self) -> Seq<char> {
        match self {
            RouteOutcome::Literal(p) => p@,
            RouteOutcome::Asset(p) => p@,
            RouteOutcome::Entry(p) => p@,
        }
    }

    /// The file served.
    pub fn path(&self) -> (r: &String)
        ensures
            r@ == self.path_spec(),
    {
        match self {
            RouteOutcome::Literal(p) => p,
            RouteOutcome::Asset(p) => p,
            RouteOutcome::Entry(p) => p,
        }
    }
}

/// The router never answers "not found" and never leaves the root: a request
/// whose literal file stays under the root and exists gets that file; a miss
/// with the asset rule off gets the entry document; and every answer but the
/// entry document is a file under the root.
pub proof fn lemma_every_request_answered(
    router: FallbackRouter,
    segs: Seq<Seq<char>>,
    literal_found: bool,
    asset_found: bool,
)
    ensures
        router.literal_spec(segs) matches Some(l) ==> router.resolve_spec(segs, true, asset_found)
            == (RouteKind::Literal, l),
        router.asset_prefix is None ==> router.resolve_spec(segs, false, asset_found) == (
        RouteKind::Entry,
        router.entry@,
        ),
        ({
            let (kind, path) = router.resolve_spec(segs, literal_found, asset_found);
            kind !is Entry ==> is_under(path, router.root@)
        }),
{
    let (kind, path) = router.resolve_spec(segs, literal_found, asset_found);
    let rel = joined_segments(segs);
    if stays_inside(rel) {
        assert(joined(router.root@, rel) == dir_of(router.root@) + rel);
    }
    if let Some(p) = router.asset_prefix {
        let k = find_segment(segs, p@, 0);
        let arel = joined_segments(segs.subrange(k, segs.len() as int));
        if stays_inside(arel) {
            assert(joined(router.root@, arel) == dir_of(router.root@) + arel);
        }
    }
}

} // verus!
