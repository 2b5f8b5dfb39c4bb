use vstd::prelude::*;

use crate::error::MirrorError;
use crate::job::{authorized_url, token_key, url_with_param};
use crate::paths::{dir_of, is_safe_relative, parent_segment_at, is_safe_relative_path, join_path, joined};
use crate::prefix::{
    common_prefix,
    is_prefix,
    lemma_longest_common_prefix_exists,
    lemma_longest_common_prefix_unique,
    longest_common_prefix,
    string_views,
};

verus! {

/// What is left of `url` once `prefix` is taken off its start.
pub open spec fn relative_of(url: Seq<char>, prefix: Seq<char>) -> Seq<char> {
    url.subrange(prefix.len() as int, url.len() as int)
}

/// The relative path of the `i`-th URL: the URL without the prefix that all
/// the URLs share.
pub open spec fn relative_at(urls: Seq<Seq<char>>, i: int) -> Seq<char> {
    relative_of(urls[i], longest_common_prefix(urls))
}

/// Every relative path before index `k` is safe.
pub open spec fn safe_before(urls: Seq<Seq<char>>, k: int) -> bool {
    forall|j: int| 0 <= j < k ==> is_safe_relative(#[trigger] relative_at(urls, j))
}

/// Where one artifact goes.
pub struct FileTarget {
    /// The artifact's URL.
    pub url: String,
    /// The URL without the common prefix.
    pub relative: String,
    /// The destination joined with the relative path.
    pub path: String,
}

/// Where every artifact of a batch goes, in listing order.
pub struct MaterializePlan {
    /// The prefix that all URLs share.
    pub prefix: String,
    pub files: Vec<FileTarget>,
}

/// One download of a run: fetch `request_url`, write the body to `path`.
pub struct DownloadTask {
    /// The artifact URL with the token as a query parameter.
    pub request_url: String,
    /// The file the body is written to.
    pub path: String,
}

/// The targets of a batch: the `i`-th URL goes to
/// `destination / relative_at(urls, i)`. Fails with `InvalidInput` when there
/// is no URL, and with `Filesystem(k)` when the `k`-th relative path is the
/// first that is empty, absolute or has a `..` segment; nothing is planned
/// outside `destination` then.
pub fn plan_files(urls: &Vec<String>, destination: &str) -> (r: Result<MaterializePlan, MirrorError>)
    ensures
        ({
            let us = string_views(urls@);
            match r {
                Ok(plan) => {
                    &&& us.len() > 0
                    &&& plan.prefix@ == longest_common_prefix(us)
                    &&& plan.files@.len() == us.len()
                    &&& safe_before(us, us.len() as int)
                    &&& forall|i: int|
                        0 <= i < us.len() ==> {
                            &&& (#[trigger] plan.files@[i]).url@ == us[i]
                            &&& plan.files@[i].relative@ == relative_at(us, i)
                            &&& plan.files@[i].path@ == joined(destination@, relative_at(us, i))
                        }
                },
                Err(MirrorError::InvalidInput) => us.len() == 0,
                Err(MirrorError::Filesystem(k)) => {
                    &&& k < us.len()
                    &&& safe_before(us, k as int)
                    &&& !is_safe_relative(relative_at(us, k as int))
                },
                Err(_) => false,
            }
        }),
{
    let ghost us = string_views(urls@);
    let prefix = match common_prefix(urls) {
        Ok(p) => p,
        Err(e) => {
            return Err(e);
        },
    };
    proof {
        lemma_longest_common_prefix_unique(prefix@, us);
    }
    let start = prefix.as_str().unicode_len();
    let mut files: Vec<FileTarget> = Vec::new();
    let mut i: usize = 0;
    while i < urls.len()
        invariant
            us == string_views(urls@),
            us.len() > 0,
            prefix@ == longest_common_prefix(us),
            start == prefix@.len(),
            forall|j: int| 0 <= j < us.len() ==> is_prefix(prefix@, #[trigger] us[j]),
            i <= us.len(),
            files@.len() == i,
            safe_before(us, i as int),
            forall|j: int|
                0 <= j < i ==> {
                    &&& (#[trigger] files@[j]).url@ == us[j]
                    &&& files@[j].relative@ == relative_at(us, j)
                    &&& files@[j].path@ == joined(destination@, relative_at(us, j))
                },
        decreases us.len() - i,
    {
        let url = urls[i].as_str();
        assert(us[i as int] == url@);
        assert(is_prefix(prefix@, us[i as int]));
        let n = url.unicode_len();
        let relative = String::from_str(url.substring_char(start, n));
        if !is_safe_relative_path(relative.as_str()) {
            return Err(MirrorError::Filesystem(i));
        }
        let path = join_path(destination, relative.as_str());
        files.push(FileTarget { url: urls[i].clone(), relative, path });
        proof {
            assert(files@[i as int].url@ == us[i as int]);
        }
        i = i + 1;
    }
    Ok(MaterializePlan { prefix, files })
}

/// The downloads of a run, in listing order: the `i`-th fetches the `i`-th URL
/// with the token appended and writes to `destination / relative_at(urls, i)`.
/// Fails as `plan_files` does, and otherwise with `Download(k)` when the `k`-th
/// URL is the first that does not parse.
pub fn plan_downloads(urls: &Vec<String>, destination: &str, token: &str) -> (r: Result<
    Vec<DownloadTask>,
    MirrorError,
>)
    ensures
        ({
            let us = string_views(urls@);
            match r {
                Ok(tasks) => {
                    &&& us.len() > 0
                    &&& tasks@.len() == us.len()
                    &&& safe_before(us, us.len() as int)
                    &&& forall|i: int|
                        0 <= i < us.len() ==> {
                            &&& url_with_param(us[i], token_key(), token@) == Some(
                                (#[trigger] tasks@[i]).request_url@,
                            )
                            &&& tasks@[i].path@ == joined(destination@, relative_at(us, i))
                        }
                },
                Err(MirrorError::InvalidInput) => us.len() == 0,
                Err(MirrorError::Filesystem(k)) => {
                    &&& k < us.len()
                    &&& safe_before(us, k as int)
                    &&& !is_safe_relative(relative_at(us, k as int))
                },
                Err(MirrorError::Download(k)) => {
                    &&& k < us.len()
                    &&& safe_before(us, us.len() as int)
                    &&& url_with_param(us[k as int], token_key(), token@) is None
                    &&& forall|j: int|
                        0 <= j < k ==> #[trigger] url_with_param(us[j], token_key(), token@) is Some
                },
                Err(MirrorError::Listing) => false,
            }
        }),
{
    let ghost us = string_views(urls@);
    let plan = match plan_files(urls, destination) {
        Ok(p) => p,
        Err(e) => {
            return Err(e);
        },
    };
    let mut tasks: Vec<DownloadTask> = Vec::new();
    let mut i: usize = 0;
    while i < plan.files.len()
        invariant
            us == string_views(urls@),
            plan.files@.len() == us.len(),
            safe_before(us, us.len() as int),
            forall|j: int|
                0 <= j < us.len() ==> {
                    &&& (#[trigger] plan.files@[j]).url@ == us[j]
                    &&& plan.files@[j].path@ == joined(destination@, relative_at(us, j))
                },
            i <= us.len(),
            tasks@.len() == i,
            forall|j: int|
                0 <= j < i ==> {
                    &&& url_with_param(us[j], token_key(), token@) == Some(
                        (#[trigger] tasks@[j]).request_url@,
                    )
                    &&& tasks@[j].path@ == joined(destination@, relative_at(us, j))
                },
        decreases us.len() - i,
    {
        let target = &plan.files[i];
        assert(target.url@ == us[i as int]);
        let request_url = match authorized_url(target.url.as_str(), token) {
            Some(u) => u,
            None => {
                proof {
                    assert forall|j: int| 0 <= j < i implies #[trigger] url_with_param(
                        us[j],
                        token_key(),
                        token@,
                    ) is Some by {
                        assert(url_with_param(us[j], token_key(), token@) == Some(
                            tasks@[j].request_url@,
                        ));
                    }
                }
                return Err(MirrorError::Download(i));
            },
        };
        tasks.push(DownloadTask { request_url, path: target.path.clone() });
        proof {
            assert(tasks@[i as int].request_url@ == request_url@);
        }
        i = i + 1;
    }
    Ok(tasks)
}

/// A batch of distinct URLs that is planned at all is mirrored file for file:
/// the common prefix followed by the `i`-th relative path is the `i`-th URL,
/// and no two URLs are given the same destination path, so the tree holds one
/// file per URL.
pub proof fn lemma_materialized_tree(urls: Seq<Seq<char>>, destination: Seq<char>)
    requires
        urls.len() > 0,
        forall|i: int, j: int| 0 <= i < j < urls.len() ==> urls[i] != urls[j],
        safe_before(urls, urls.len() as int),
    ensures
        forall|i: int|
            0 <= i < urls.len() ==> longest_common_prefix(urls) + #[trigger] relative_at(urls, i)
                == urls[i],
        forall|i: int, j: int|
            0 <= i < j < urls.len() ==> joined(destination, #[trigger] relative_at(urls, i))
                != joined(destination, #[trigger] relative_at(urls, j)),
{
    let p = longest_common_prefix(urls);
    lemma_longest_common_prefix_exists(urls);
    assert forall|i: int| 0 <= i < urls.len() implies p + #[trigger] relative_at(urls, i)
        == urls[i] by {
        assert(is_prefix(p, urls[i]));
        assert(p + relative_at(urls, i) =~= urls[i]);
    }
    assert forall|i: int, j: int| 0 <= i < j < urls.len() implies joined(
        destination,
        #[trigger] relative_at(urls, i),
    ) != joined(destination, #[trigger] relative_at(urls, j)) by {
        let ri = relative_at(urls, i);
        let rj = relative_at(urls, j);
        let d = dir_of(destination);
        assert(is_safe_relative(ri));
        assert(is_safe_relative(rj));
        if joined(destination, ri) == joined(destination, rj) {
            assert((d + ri).subrange(d.len() as int, (d + ri).len() as int) =~= ri);
            assert((d + rj).subrange(d.len() as int, (d + rj).len() as int) =~= rj);
            assert(p + ri == urls[i]);
            assert(p + rj == urls[j]);
        }
    }
}

/// Nothing is planned outside the destination: every path of a planned batch is
/// the destination directory followed by a relative path that is not empty,
/// not absolute and has no `..` segment; and a batch in which some relative
/// path has a `..` segment is refused.
pub proof fn lemma_plan_stays_inside(urls: Seq<Seq<char>>, destination: Seq<char>)
    requires
        urls.len() > 0,
    ensures
        safe_before(urls, urls.len() as int) ==> forall|i: int|
            0 <= i < urls.len() ==> {
                let rel = #[trigger] relative_at(urls, i);
                &&& joined(destination, rel) == dir_of(destination) + rel
                &&& rel.len() > 0
                &&& rel[0] != '/'
                &&& forall|k: int| !parent_segment_at(rel, k)
            },
        (exists|i: int, k: int|
            0 <= i < urls.len() && #[trigger] parent_segment_at(relative_at(urls, i), k))
            ==> !safe_before(urls, urls.len() as int),
{
    if exists|i: int, k: int|
        0 <= i < urls.len() && #[trigger] parent_segment_at(relative_at(urls, i), k) {
        let (i, k) = choose|i: int, k: int|
            0 <= i < urls.len() && #[trigger] parent_segment_at(relative_at(urls, i), k);
        assert(!is_safe_relative(relative_at(urls, i)));
    }
    if safe_before(urls, urls.len() as int) {
        assert forall|i: int| 0 <= i < urls.len() implies {
            let rel = #[trigger] relative_at(urls, i);
            &&& joined(destination, rel) == dir_of(destination) + rel
            &&& rel.len() > 0
            &&& rel[0] != '/'
            &&& forall|k: int| !parent_segment_at(rel, k)
        } by {
            assert(is_safe_relative(relative_at(urls, i)));
        }
    }
}

} // verus!
