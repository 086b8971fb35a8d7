//! Issue keys in pull-request titles: a key is two or more upper-case ASCII
//! letters, a dash, and one or more ASCII digits (`ABC-123`). A title line
//! is cut into tokens, the longest runs of ASCII letters, digits and dashes.
use vstd::prelude::*;

verus! {

/// An upper-case ASCII letter.
pub open spec fn is_upper(c: char) -> bool {
    'A' as u32 <= c as u32 <= 'Z' as u32
}

/// An ASCII digit.
pub open spec fn is_digit(c: char) -> bool {
    '0' as u32 <= c as u32 <= '9' as u32
}

/// A character that tokens are made of.
pub open spec fn is_token_char(c: char) -> bool {
    ||| is_upper(c)
    ||| is_digit(c)
    ||| 'a' as u32 <= c as u32 <= 'z' as u32
    ||| c == '-'
}

/// `v` splits at the dash at `p` into upper-case letters, two or more, and
/// digits, one or more.
pub open spec fn key_split_at(v: Seq<char>, p: int) -> bool {
    &&& 2 <= p
    &&& p + 1 < v.len()
    &&& v[p] == '-'
    &&& forall|k: int| 0 <= k < p ==> is_upper(#[trigger] v[k])
    &&& forall|k: int| p < k < v.len() ==> is_digit(#[trigger] v[k])
}

/// `v` is an issue key.
pub open spec fn is_key(v: Seq<char>) -> bool {
    exists|p: int| key_split_at(v, p)
}

/// `v[s..e]` is a token of `v`: a longest run of token characters.
pub open spec fn is_token(v: Seq<char>, s: int, e: int) -> bool {
    &&& 0 <= s < e <= v.len()
    &&& s == 0 || !is_token_char(v[s - 1])
    &&& e == v.len() || !is_token_char(v[e])
    &&& forall|k: int| s <= k < e ==> is_token_char(#[trigger] v[k])
}

/// `v[s..e]` is a token of `v` that is an issue key.
pub open spec fn is_key_token(v: Seq<char>, s: int, e: int) -> bool {
    is_token(v, s, e) && is_key(v.subrange(s, e))
}

fn is_upper_char(c: char) -> (r: bool)
    ensures
        r == is_upper(c),
{
    'A' as u32 <= c as u32 && c as u32 <= 'Z' as u32
}

fn is_digit_char(c: char) -> (r: bool)
    ensures
        r == is_digit(c),
{
    '0' as u32 <= c as u32 && c as u32 <= '9' as u32
}

fn is_token_character(c: char) -> (r: bool)
    ensures
        r == is_token_char(c),
{
    is_upper_char(c) || is_digit_char(c) || ('a' as u32 <= c as u32 && c as u32 <= 'z' as u32) || c
        == '-'
}

/// Whether `value` is an issue key.
pub fn is_jira_key(value: &str) -> (r: bool)
    ensures
        r == is_key(value@),
{
    let v = Ghost(value@);
    let n = value.unicode_len();
    let mut p: usize = 0;
    while p < n && value.get_char(p) != '-'
        invariant
            p <= n,
            n == v@.len(),
            v@ == value@,
            forall|k: int| 0 <= k < p ==> v@[k] != '-',
        decreases n - p,
    {
        p += 1;
    }
    if p == n || p < 2 || p + 1 >= n {
        proof {
            assert forall|q: int| !key_split_at(v@, q) by {
                if key_split_at(v@, q) && q != p {
                    if q < p {
                    } else {
                        assert(is_upper(v@[p as int]));
                    }
                }
            }
        }
        return false;
    }
    let mut k: usize = 0;
    while k < p
        invariant
            k <= p,
            p < n,
            n == v@.len(),
            v@ == value@,
            v@[p as int] == '-',
            forall|i: int| 0 <= i < p ==> v@[i] != '-',
            forall|j: int| 0 <= j < k ==> is_upper(#[trigger] v@[j]),
        decreases p - k,
    {
        if !is_upper_char(value.get_char(k)) {
            proof {
                assert forall|q: int| !key_split_at(v@, q) by {
                    if key_split_at(v@, q) {
                        if q < p {
                        } else if q > p {
                            assert(is_upper(v@[p as int]));
                        } else {
                            assert(is_upper(v@[k as int]));
                        }
                    }
                }
            }
            return false;
        }
        k += 1;
    }
    let mut j: usize = p + 1;
    while j < n
        invariant
            p < j <= n,
            n == v@.len(),
            v@ == value@,
            forall|i: int| 0 <= i < p ==> is_upper(#[trigger] v@[i]),
            forall|i: int| p < i < j ==> is_digit(#[trigger] v@[i]),
            v@[p as int] == '-',
            forall|i: int| 0 <= i < p ==> v@[i] != '-',
        decreases n - j,
    {
        if !is_digit_char(value.get_char(j)) {
            proof {
                assert forall|q: int| !key_split_at(v@, q) by {
                    if key_split_at(v@, q) {
                        if q < p {
                        } else if q > p {
                            assert(is_upper(v@[p as int]));
                        } else {
                            assert(is_digit(v@[j as int]));
                        }
                    }
                }
            }
            return false;
        }
        j += 1;
    }
    assert(key_split_at(v@, p as int));
    true
}

proof fn lemma_only_token_from(v: Seq<char>, start: int, end: int)
    requires
        0 <= start < end <= v.len(),
        start == 0 || !is_token_char(v[start - 1]),
        end == v.len() || !is_token_char(v[end]),
        forall|k: int| start <= k < end ==> is_token_char(#[trigger] v[k]),
    ensures
        forall|s2: int, e2: int|
            #[trigger] is_token(v, s2, e2) && start <= s2 <= end ==> s2 == start && e2 == end,
{
    assert forall|s2: int, e2: int| #[trigger] is_token(v, s2, e2) && start <= s2 <= end implies s2 == start
        && e2 == end by {
        if s2 > start {
            assert(is_token_char(v[s2 - 1]));
        }
        if e2 < end {
            assert(is_token_char(v[e2]));
        }
        if e2 > end {
            assert(is_token_char(v[end]));
        }
    }
}

/// The first token of `line` that is an issue key: where it starts and ends,
/// in characters, and its text.
pub fn find_jira_in_line(line: &str) -> (r: Option<(usize, usize, String)>)
    ensures
        match r {
            Some((s, e, key)) => {
                &&& is_key_token(line@, s as int, e as int)
                &&& key@ == line@.subrange(s as int, e as int)
                &&& forall|s2: int, e2: int| #[trigger] is_key_token(line@, s2, e2) ==> s <= s2
            },
            None => forall|s2: int, e2: int| !#[trigger] is_key_token(line@, s2, e2),
        },
{
    let ghost v = line@;
    let n = line.unicode_len();
    let mut i: usize = 0;
    let mut in_token = false;
    let mut start: usize = 0;
    while i < n
        invariant
            i <= n,
            n == v.len(),
            v == line@,
            in_token ==> start < i,
            in_token ==> start == 0 || !is_token_char(v[start - 1]),
            in_token ==> forall|k: int| start <= k < i ==> is_token_char(#[trigger] v[k]),
            !in_token ==> i == 0 || !is_token_char(v[i - 1]),
            forall|s2: int, e2: int| #[trigger]
                is_key_token(v, s2, e2) ==> s2 >= if in_token {
                    start as int
                } else {
                    i as int
                },
        decreases n - i,
    {
        let c = line.get_char(i);
        if is_token_character(c) {
            if !in_token {
                start = i;
                in_token = true;
            }
        } else {
            if in_token {
                let token = line.substring_char(start, i);
                proof {
                    lemma_only_token_from(v, start as int, i as int);
                }
                if is_jira_key(token) {
                    return Some((start, i, String::from_str(token)));
                }
            }
            in_token = false;
        }
        i += 1;
    }
    if in_token {
        let token = line.substring_char(start, n);
        proof {
            lemma_only_token_from(v, start as int, n as int);
        }
        if is_jira_key(token) {
            return Some((start, n, String::from_str(token)));
        }
    }
    None
}

} // verus!
