//! Derivation of the local file name for a downloaded asset: from a
//! `Content-Disposition` header when one names a file, else from the URL's
//! last path segment, else a fixed fallback. The transfer itself happens
//! outside the library.

use crate::strutil::find_sub;
use crate::strutil::match_at;
use crate::strutil::substr;
use crate::strutil::trim_class;
use crate::strutil::trim_while;
use crate::strutil::TrimClass;
use vstd::prelude::*;

verus! {

/// Whether `i` is the first index at which `n` occurs in `s`.
pub open spec fn is_first_match(s: Seq<char>, n: Seq<char>, i: int) -> bool {
    match_at(s, n, i) && forall|j: int| 0 <= j < i ==> !match_at(s, n, j)
}

/// The text between the first occurrence of `n` in `s` and the next
/// occurrence after it (or the end of `s`); `None` when `n` does not occur.
pub open spec fn spec_split_second(s: Seq<char>, n: Seq<char>) -> Option<Seq<char>> {
    if exists|i: int| is_first_match(s, n, i) {
        let i = choose|i: int| is_first_match(s, n, i);
        let tail = s.subrange(i + n.len(), s.len() as int);
        if exists|j: int| is_first_match(tail, n, j) {
            let j = choose|j: int| is_first_match(tail, n, j);
            Some(tail.subrange(0, j))
        } else {
            Some(tail)
        }
    } else {
        None
    }
}

proof fn lemma_first_match_unique(s: Seq<char>, n: Seq<char>, i: int)
    requires
        is_first_match(s, n, i),
    ensures
        (choose|j: int| is_first_match(s, n, j)) == i,
{
    let j = choose|j: int| is_first_match(s, n, j);
    if j < i {
        assert(!match_at(s, n, j));
    }
    if i < j {
        assert(!match_at(s, n, i));
    }
}

/// What a `Content-Disposition` header value names, after the quotes and
/// whitespace around it are trimmed; `None` when it holds no `filename=`.
pub open spec fn spec_cd_filename(s: Seq<char>) -> Option<Seq<char>> {
    match spec_split_second(s, "filename="@) {
        Some(seg) => Some(
            trim_while(trim_while(seg, TrimClass::DoubleQuote), TrimClass::AsciiSpace),
        ),
        None => None,
    }
}

/// The last segment of a URL's path, if the URL parses and has one. Named
/// after `url::Url::path_segments`, whose result depends on the URL text
/// alone.
pub uninterp spec fn url_last_segment(u: Seq<char>) -> Option<Seq<char>>;

/// Relies on url::Url::parse and url::Url::path_segments: parsing a URL and
/// splitting its path are functions of the URL text alone.
#[verifier::external_body]
fn url_last_path_segment(u: &str) -> (r: Option<String>)
    ensures
        r is Some <==> url_last_segment(u@) is Some,
        r matches Some(s) ==> s@ == url_last_segment(u@)->0,
{
    match url::Url::parse(u) {
        Ok(parsed) => match parsed.path_segments() {
            Some(segs) => segs.last().map(|s| s.to_string()),
            None => None,
        },
        Err(_) => None,
    }
}

/// The file name a download is stored under, given the header and the URL.
pub open spec fn spec_filename_from(cd: Option<Seq<char>>, url: Seq<char>) -> Seq<char> {
    let named = match cd {
        Some(s) => spec_cd_filename(s),
        None => None,
    };
    match named {
        Some(t) => if t.len() > 0 {
            t
        } else {
            spec_url_fallback(url)
        },
        None => spec_url_fallback(url),
    }
}

/// The URL-derived name, or the fixed fallback when the URL yields none.
pub open spec fn spec_url_fallback(url: Seq<char>) -> Seq<char> {
    match url_last_segment(url) {
        Some(seg) => seg,
        None => "download.bin"@,
    }
}

/// Derive the local file name for a download: a non-empty
/// `Content-Disposition` file name wins; otherwise the URL's last path
/// segment; otherwise `download.bin`.
pub fn filename_from_headers_or_url(content_disposition: Option<&str>, url: &str) -> (r: String)
    ensures
        r@ == spec_filename_from(
            match content_disposition {
                Some(s) => Some(s@),
                None => None,
            },
            url@,
        ),
{
    if let Some(cd) = content_disposition {
        let needle = "filename=";
        let nlen = needle.unicode_len();
        let cdlen = cd.unicode_len();
        if let Some(i) = find_sub(cd, needle) {
            proof {
                assert(is_first_match(cd@, needle@, i as int));
                lemma_first_match_unique(cd@, needle@, i as int);
            }
            let tail = substr(cd, i + nlen, cdlen);
            let ghost spec_tail = cd@.subrange(i + needle@.len(), cd@.len() as int);
            proof {
                assert(tail@ == spec_tail);
            }
            let seg = match find_sub(tail.as_str(), needle) {
                Some(j) => {
                    proof {
                        assert(is_first_match(tail@, needle@, j as int));
                        lemma_first_match_unique(tail@, needle@, j as int);
                    }
                    substr(tail.as_str(), 0, j)
                },
                None => tail,
            };
            proof {
                assert(spec_split_second(cd@, needle@) == Some(seg@));
            }
            let t1 = trim_class(seg.as_str(), TrimClass::DoubleQuote);
            let t = trim_class(t1.as_str(), TrimClass::AsciiSpace);
            proof {
                assert(spec_cd_filename(cd@) == Some(t@));
            }
            if t.unicode_len() > 0 {
                return t;
            }
        }
    }
    match url_last_path_segment(url) {
        Some(s) => s,
        None => String::from_str("download.bin"),
    }
}

} // verus!
