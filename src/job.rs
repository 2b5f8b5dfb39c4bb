use vstd::prelude::*;

use crate::error::MirrorError;
use crate::paths::{decimal, decimal_string, join_path, joined};

verus! {

/// The URL that `reqwest::Url::parse_with_params` serialises for `url` with the
/// pair `key=value` appended to its query, or `None` where `url` does not parse.
pub uninterp spec fn url_with_param(url: Seq<char>, key: Seq<char>, value: Seq<char>) -> Option<
    Seq<char>,
>;

/// Relies on `reqwest::Url::parse_with_params` (the `url` crate's): it parses
/// `url` and appends `key=value`, form-encoded, to the query. The result
/// depends on the three strings alone.
#[verifier::external_body]
fn parse_with_param(url: &str, key: &str, value: &str) -> (r: Option<String>)
    ensures
        r matches Some(s) ==> url_with_param(url@, key@, value@) == Some(s@),
        r is None ==> url_with_param(url@, key@, value@) is None,
{
    reqwest::Url::parse_with_params(url, &[(key, value)]).ok().map(|u| u.into_string())
}

/// The query parameter that carries the API token.
pub open spec fn token_key() -> Seq<char> {
    "circle-token"@
}

/// `url` with the API token appended as a query parameter, or `None` where
/// `url` does not parse as a URL.
pub fn authorized_url(url: &str, token: &str) -> (r: Option<String>)
    ensures
        r matches Some(s) ==> url_with_param(url@, token_key(), token@) == Some(s@),
        r is None ==> url_with_param(url@, token_key(), token@) is None,
{
    parse_with_param(url, "circle-token", token)
}

/// One build of a project on the CI service.
pub struct CircleCIBuild {
    pub vcs: String,
    pub user: String,
    pub project: String,
    pub build_num: u32,
}

/// `vcs/user/project/build_num`.
pub open spec fn build_path(vcs: Seq<char>, user: Seq<char>, project: Seq<char>, build_num: u32) -> Seq<
    char,
> {
    vcs + "/"@ + user + "/"@ + project + "/"@ + decimal(build_num as nat)
}

/// The local directory a build is mirrored into: `vcs/user/project/build_num`,
/// under `directory` when one is given.
pub open spec fn downloaded_dir_spec(
    vcs: Seq<char>,
    user: Seq<char>,
    project: Seq<char>,
    build_num: u32,
    directory: Option<Seq<char>>,
) -> Seq<char> {
    match directory {
        Some(dir) => joined(dir, build_path(vcs, user, project, build_num)),
        None => build_path(vcs, user, project, build_num),
    }
}

/// `vcs/user/project/build_num`.
fn build_path_string(vcs: &str, user: &str, project: &str, build_num: u32) -> (r: String)
    ensures
        r@ == build_path(vcs@, user@, project@, build_num),
{
    let mut r = String::from_str(vcs);
    r.append("/");
    r.append(user);
    r.append("/");
    r.append(project);
    r.append("/");
    let n = decimal_string(build_num);
    r.append(n.as_str());
    r
}

/// The local directory a build is mirrored into (see `downloaded_dir_spec`).
pub fn downloaded_dir(
    vcs: String,
    user: String,
    project: String,
    build_num: u32,
    directory: Option<String>,
) -> (r: String)
    ensures
        r@ == downloaded_dir_spec(
            vcs@,
            user@,
            project@,
            build_num,
            match directory {
                Some(d) => Some(d@),
                None => None,
            },
        ),
{
    let dest = build_path_string(vcs.as_str(), user.as_str(), project.as_str(), build_num);
    match directory {
        Some(dir) => join_path(dir.as_str(), dest.as_str()),
        None => dest,
    }
}

impl CircleCIBuild {
    /// The listing endpoint of this build's completed artifacts.
    pub open spec fn endpoint_spec(&self) -> Seq<char> {
        "https://circleci.com/api/v1.1/project/"@ + build_path(
            self.vcs@,
            self.user@,
            self.project@,
            self.build_num,
        ) + "/artifacts?filter=completed"@
    }

    /// The listing endpoint of this build's completed artifacts, without the token.
    pub fn artifacts_endpoint(&self) -> (r: String)
        ensures
            r@ == self.endpoint_spec(),
    {
        let path = build_path_string(
            self.vcs.as_str(),
            self.user.as_str(),
            self.project.as_str(),
            self.build_num,
        );
        let mut r = String::from_str("https://circleci.com/api/v1.1/project/");
        r.append(path.as_str());
        r.append("/artifacts?filter=completed");
        r
    }

    /// The listing request URL: the endpoint with the token as a query
    /// parameter. Fails with `Listing` where that URL does not parse.
    pub fn artifacts_request_url(&self, token: &str) -> (r: Result<String, MirrorError>)
        ensures
            match r {
                Ok(u) => url_with_param(self.endpoint_spec(), token_key(), token@) == Some(u@),
                Err(e) => e == MirrorError::Listing && url_with_param(
                    self.endpoint_spec(),
                    token_key(),
                    token@,
                ) is None,
            },
    {
        let endpoint = self.artifacts_endpoint();
        match authorized_url(endpoint.as_str(), token) {
            Some(u) => Ok(u),
            None => Err(MirrorError::Listing),
        }
    }
}

} // verus!
