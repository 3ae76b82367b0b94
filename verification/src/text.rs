use vstd::prelude::*;
use vstd::string::StrSliceExecFns;
use vstd::string::StringExecFns;

verus! {

/// The forward target obtained by joining a matched remainder onto a backend
/// base: the two concatenated, with exactly one `/` inserted between them
/// unless the base already ends with one or the remainder already begins with
/// one.
pub open spec fn spec_join(base: Seq<char>, rest: Seq<char>) -> Seq<char> {
    if (base.len() > 0 && base.last() == '/') || (rest.len() > 0 && rest.first() == '/') {
        base + rest
    } else {
        base + seq!['/'] + rest
    }
}

/// Whether the character sequence `p` is a leading prefix of `s`.
pub open spec fn spec_starts_with(s: Seq<char>, p: Seq<char>) -> bool {
    p.is_prefix_of(s)
}

/// A network-URL endpoint is recognised by its scheme: the first four
/// characters are `http` (which also covers `https`).
pub open spec fn spec_is_url(e: Seq<char>) -> bool {
    e.len() >= 4 && e[0] == 'h' && e[1] == 't' && e[2] == 't' && e[3] == 'p'
}

/// Character-by-character prefix test, exact against `spec_starts_with`.
pub fn str_starts_with(s: &str, p: &str) -> (r: bool)
    ensures
        r == spec_starts_with(s@, p@),
{
    let s_len = s.unicode_len();
    let p_len = p.unicode_len();
    if p_len > s_len {
        return false;
    }
    let mut i: usize = 0;
    while i < p_len
        invariant
            i <= p_len <= s_len,
            s_len == s@.len(),
            p_len == p@.len(),
            forall|j: int| 0 <= j < i ==> s@[j] == p@[j],
        decreases p_len - i,
    {
        if s.get_char(i) != p.get_char(i) {
            proof {
                assert(s@.subrange(0, p_len as int)[i as int] == s@[i as int]);
                assert(p@ != s@.subrange(0, p_len as int));
            }
            return false;
        }
        i += 1;
    }
    proof {
        assert(s@.subrange(0, p_len as int) =~= p@);
    }
    true
}

/// The suffix of `s` from character position `from`, as an owned string.
pub fn str_suffix_from(s: &str, from: usize) -> (r: String)
    requires
        from <= s@.len(),
    ensures
        r@ == s@.subrange(from as int, s@.len() as int),
{
    let len = s.unicode_len();
    let sub = s.substring_char(from, len);
    String::from_str(sub)
}

/// Whether the first four characters of `e` spell the `http` scheme prefix.
pub fn is_url_endpoint(e: &str) -> (r: bool)
    ensures
        r == spec_is_url(e@),
{
    let len = e.unicode_len();
    if len < 4 {
        return false;
    }
    e.get_char(0) == 'h' && e.get_char(1) == 't' && e.get_char(2) == 't' && e.get_char(3) == 'p'
}

/// Position of the first occurrence of `c` at or after `k`.
pub open spec fn find_char_from(s: Seq<char>, c: char, k: int) -> Option<int>
    decreases s.len() - k,
{
    if k < 0 || k >= s.len() {
        None
    } else if s[k] == c {
        Some(k)
    } else {
        find_char_from(s, c, k + 1)
    }
}

/// When `c` does not occur before `k`, the search from `base` agrees with
/// the search from `k`.
pub proof fn lemma_find_char_skip(s: Seq<char>, c: char, base: int, k: int)
    requires
        0 <= base <= k <= s.len(),
        forall|m: int| base <= m < k ==> s[m] != c,
    ensures
        find_char_from(s, c, base) == find_char_from(s, c, k),
    decreases k - base,
{
    if base < k {
        lemma_find_char_skip(s, c, base + 1, k);
    }
}

/// The request target of an HTTP request line: the characters between the
/// first space (after the method) and the next one (before the version);
/// `None` when the line carries no two spaces.
pub open spec fn spec_request_path(line: Seq<char>) -> Option<Seq<char>> {
    match find_char_from(line, ' ', 0) {
        None => None,
        Some(i) => match find_char_from(line, ' ', i + 1) {
            None => None,
            Some(j) => Some(line.subrange(i + 1, j)),
        },
    }
}

/// The name and value of an HTTP header line: the characters before the
/// first colon, and those after it with one leading space dropped;
/// `None` when the line carries no colon.
pub open spec fn spec_header_parts(line: Seq<char>) -> Option<(Seq<char>, Seq<char>)> {
    match find_char_from(line, ':', 0) {
        None => None,
        Some(i) => {
            let raw = line.subrange(i + 1, line.len() as int);
            let value = if raw.len() > 0 && raw.first() == ' ' {
                raw.subrange(1, raw.len() as int)
            } else {
                raw
            };
            Some((line.subrange(0, i), value))
        },
    }
}

/// Splits one header line into its name and value, exact against
/// `spec_header_parts`.
pub fn split_header_line(line: &str) -> (r: Option<(String, String)>)
    ensures
        match r {
            Some(p) => spec_header_parts(line@) == Some((p.0@, p.1@)),
            None => spec_header_parts(line@) is None,
        },
{
    let len = line.unicode_len();
    let mut i: usize = 0;
    while i < len
        invariant
            i <= len,
            len == line@.len(),
            forall|m: int| 0 <= m < i ==> line@[m] != ':',
        decreases len - i,
    {
        if line.get_char(i) == ':' {
            proof {
                lemma_find_char_skip(line@, ':', 0, i as int);
            }
            let name = String::from_str(line.substring_char(0, i));
            let start: usize = if i + 1 < len && line.get_char(i + 1) == ' ' {
                i + 2
            } else {
                i + 1
            };
            let value = String::from_str(line.substring_char(start, len));
            proof {
                let raw = line@.subrange(i as int + 1, len as int);
                if raw.len() > 0 && raw.first() == ' ' {
                    assert(value@ =~= raw.subrange(1, raw.len() as int));
                } else {
                    assert(value@ =~= raw);
                }
            }
            return Some((name, value));
        }
        i += 1;
    }
    proof {
        lemma_find_char_skip(line@, ':', 0, len as int);
    }
    None
}

/// Extracts the request target from an HTTP request line, exact against
/// `spec_request_path`.
pub fn extract_path(line: &str) -> (r: Option<String>)
    ensures
        match r {
            Some(p) => spec_request_path(line@) == Some(p@),
            None => spec_request_path(line@) is None,
        },
{
    let len = line.unicode_len();
    let mut i: usize = 0;
    while i < len
        invariant
            i <= len,
            len == line@.len(),
            forall|m: int| 0 <= m < i ==> line@[m] != ' ',
        decreases len - i,
    {
        if line.get_char(i) == ' ' {
            proof {
                lemma_find_char_skip(line@, ' ', 0, i as int);
            }
            let mut j: usize = i + 1;
            while j < len
                invariant
                    i + 1 <= j <= len,
                    len == line@.len(),
                    find_char_from(line@, ' ', 0) == Some(i as int),
                    line@[i as int] == ' ',
                    forall|m: int| i < m < j ==> line@[m] != ' ',
                decreases len - j,
            {
                if line.get_char(j) == ' ' {
                    proof {
                        lemma_find_char_skip(line@, ' ', i as int + 1, j as int);
                    }
                    let sub = line.substring_char(i + 1, j);
                    return Some(String::from_str(sub));
                }
                j += 1;
            }
            proof {
                lemma_find_char_skip(line@, ' ', i as int + 1, len as int);
            }
            return None;
        }
        i += 1;
    }
    proof {
        lemma_find_char_skip(line@, ' ', 0, len as int);
    }
    None
}

/// Joins a matched remainder onto a backend base, exact against `spec_join`.
pub fn join_target(base: &String, rest: &String) -> (r: String)
    ensures
        r@ == spec_join(base@, rest@),
{
    let b = base.as_str();
    let blen = b.unicode_len();
    let rs = rest.as_str();
    let rlen = rs.unicode_len();
    let adjacent: bool = (blen > 0 && b.get_char(blen - 1) == '/') || (rlen > 0 && rs.get_char(0)
        == '/');
    if adjacent {
        base.clone().concat(rest.as_str())
    } else {
        proof {
            reveal_strlit("/");
            assert(("/")@ =~= seq!['/']);
        }
        let r = base.clone().concat("/").concat(rest.as_str());
        proof {
            assert(r@ =~= base@ + seq!['/'] + rest@);
        }
        r
    }
}

} // verus!
