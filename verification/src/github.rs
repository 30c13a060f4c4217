//! Repository short names of the form `org/name` and the URLs derived from
//! them.

use crate::strutil::count_char;
use crate::strutil::find_char;
use crate::strutil::substr;
use vstd::prelude::*;

verus! {

/// A repository short name, the two segments of `org/name`.
#[derive(Clone, Debug)]
pub struct GitHubShortName {
    pub org: String,
    pub name: String,
}

impl GitHubShortName {
    /// Parse `org/name`. The text must hold exactly one separator; the
    /// segments on either side of it may be empty.
    pub fn parse(s: &str) -> (r: Option<GitHubShortName>)
        ensures
            r is Some <==> count_char(s@, '/') == 1,
            match r {
                Some(g) => exists|i: int|
                    0 <= i < s@.len() && s@[i] == '/' && g.org@ == s@.subrange(0, i) && g.name@
                        == s@.subrange(i + 1, s@.len() as int),
                None => true,
            },
    {
        let n = s.unicode_len();
        match find_char(s, '/') {
            Some(i) => {
                let org = substr(s, 0, i);
                let name = substr(s, i + 1, n);
                let mut j: usize = i + 1;
                while j < n
                    invariant
                        n == s@.len(),
                        i < n,
                        s@[i as int] == '/',
                        i + 1 <= j <= n,
                        forall|k: int| i < k < j ==> s@[k] != '/',
                    decreases n - j,
                {
                    if s.get_char(j) == '/' {
                        proof {
                            lemma_count_char_two(s@, i as int, j as int);
                        }
                        return None;
                    }
                    j = j + 1;
                }
                proof {
                    lemma_count_char_one(s@, i as int);
                }
                Some(GitHubShortName { org, name })
            },
            None => {
                proof {
                    lemma_count_char_none(s@);
                }
                None
            },
        }
    }
}

proof fn lemma_count_char_none(s: Seq<char>)
    requires
        forall|j: int| 0 <= j < s.len() ==> s[j] != '/',
    ensures
        count_char(s, '/') == 0,
    decreases s.len(),
{
    if s.len() > 0 {
        lemma_count_char_none(s.drop_last());
    }
}

proof fn lemma_count_char_one(s: Seq<char>, i: int)
    requires
        0 <= i < s.len(),
        s[i] == '/',
        forall|j: int| 0 <= j < s.len() && j != i ==> s[j] != '/',
    ensures
        count_char(s, '/') == 1,
    decreases s.len(),
{
    if i == s.len() - 1 {
        lemma_count_char_none(s.drop_last());
    } else {
        lemma_count_char_one(s.drop_last(), i);
    }
}

proof fn lemma_count_char_two(s: Seq<char>, i: int, j: int)
    requires
        0 <= i < j < s.len(),
        s[i] == '/',
        s[j] == '/',
    ensures
        count_char(s, '/') >= 2,
    decreases s.len(),
{
    if j == s.len() - 1 {
        lemma_count_char_at_least_one(s.drop_last(), i);
    } else {
        lemma_count_char_two(s.drop_last(), i, j);
    }
}

proof fn lemma_count_char_at_least_one(s: Seq<char>, i: int)
    requires
        0 <= i < s.len(),
        s[i] == '/',
    ensures
        count_char(s, '/') >= 1,
    decreases s.len(),
{
    if i < s.len() - 1 {
        lemma_count_char_at_least_one(s.drop_last(), i);
    }
}

/// The clone URL of a repository.
pub fn github_repo_url(repo: &GitHubShortName) -> (r: String)
    ensures
        r@ == "https://github.com/"@ + repo.org@ + "/"@ + repo.name@ + ".git"@,
{
    let mut r = String::from_str("https://github.com/");
    r.append(repo.org.as_str());
    r.append("/");
    r.append(repo.name.as_str());
    r.append(".git");
    proof {
        assert(r@ =~= "https://github.com/"@ + repo.org@ + "/"@ + repo.name@ + ".git"@);
    }
    r
}

/// The common prefix of a release asset's download URLs: the platform suffix
/// and archive extension are appended by the caller.
pub fn github_download_url(repo: &GitHubShortName, version: &str, package_name: &str) -> (r:
    String)
    ensures
        r@ == "https://github.com/"@ + repo.org@ + "/"@ + repo.name@ + "/releases/download/v"@
            + version@ + "/"@ + package_name@,
{
    let mut r = String::from_str("https://github.com/");
    r.append(repo.org.as_str());
    r.append("/");
    r.append(repo.name.as_str());
    r.append("/releases/download/v");
    r.append(version);
    r.append("/");
    r.append(package_name);
    proof {
        assert(r@ =~= "https://github.com/"@ + repo.org@ + "/"@ + repo.name@
            + "/releases/download/v"@ + version@ + "/"@ + package_name@);
    }
    r
}

} // verus!
