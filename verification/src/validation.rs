//! Username validation: length bounds and a profanity filter.
//!
//! Both sides consume this: the client for advisory pre-submission checks,
//! the server for authoritative enforcement on connect.
use vstd::prelude::*;

verus! {

/// Why a username was rejected. `ContainsProfanity` carries every disallowed
/// word found, in the order of the word list.
#[derive(Debug, Clone, PartialEq)]
pub enum ValidationError {
    TooShort,
    TooLong,
    ContainsProfanity(Vec<String>),
}

/// The words of a list joined with a comma and a space.
pub open spec fn spec_join_comma(words: Seq<Seq<char>>) -> Seq<char>
    decreases words.len(),
{
    if words.len() == 0 {
        Seq::empty()
    } else if words.len() == 1 {
        words[0]
    } else {
        spec_join_comma(words.drop_last()) + ", "@ + words.last()
    }
}

/// The user-facing text for a too-short username.
pub open spec fn spec_too_short_message() -> Seq<char> {
    "Username must have a minimum length of 3 characters."@
}

/// The user-facing text for a too-long username.
pub open spec fn spec_too_long_message() -> Seq<char> {
    "Username cannot exceed a maximum length of 20 characters."@
}

/// The user-facing text for a name containing disallowed words.
pub open spec fn spec_profanity_message(words: Seq<Seq<char>>) -> Seq<char> {
    "The entered username contains the following disallowed words: ["@ + spec_join_comma(words)
        + "]"@
}

impl ValidationError {
    /// The user-facing description of this rejection.
    pub fn message(&self) -> (r: String)
        ensures
            match self {
                ValidationError::TooShort => r@ == spec_too_short_message(),
                ValidationError::TooLong => r@ == spec_too_long_message(),
                ValidationError::ContainsProfanity(words) => r@ == spec_profanity_message(
                    words.deep_view(),
                ),
            },
    {
        match self {
            ValidationError::TooShort => String::from_str(
                "Username must have a minimum length of 3 characters.",
            ),
            ValidationError::TooLong => String::from_str(
                "Username cannot exceed a maximum length of 20 characters.",
            ),
            ValidationError::ContainsProfanity(words) => {
                let mut r = String::from_str(
                    "The entered username contains the following disallowed words: [",
                );
                let ghost dv = words.deep_view();
                let mut joined = String::new();
                let mut i: usize = 0;
                while i < words.len()
                    invariant
                        dv == words.deep_view(),
                        dv.len() == words@.len(),
                        i <= words@.len(),
                        joined@ == spec_join_comma(dv.take(i as int)),
                    decreases words@.len() - i,
                {
                    proof {
                        assert(dv.take(i + 1 as int).drop_last() =~= dv.take(i as int));
                        assert(dv.take(i + 1 as int).last() == words@[i as int]@);
                        if i == 0 {
                            assert(joined@ =~= Seq::<char>::empty());
                        }
                    }
                    if i > 0 {
                        joined.append(", ");
                    }
                    joined.append(words[i].as_str());
                    proof {
                        if i == 0 {
                            assert(joined@ =~= spec_join_comma(dv.take(i + 1 as int)));
                        }
                    }
                    i += 1;
                }
                proof {
                    assert(dv.take(words@.len() as int) =~= dv);
                }
                r.append(joined.as_str());
                r.append("]");
                r
            },
        }
    }
}

/// Usernames must have at least this many characters.
pub const MIN_LENGTH: usize = 3;

/// Usernames may have at most this many characters.
pub const MAX_LENGTH: usize = 20;

/// The disallowed words, all lowercase. Matching is case-insensitive: the
/// candidate name is folded to lowercase before searching.
pub open spec fn spec_profanity_list() -> Seq<Seq<char>> {
    seq!["damn"@, "hell"@, "crap"@, "arse"@]
}

/// The disallowed words as executable strings, in the order of
/// [`spec_profanity_list`].
pub fn profanity_words() -> (r: Vec<&'static str>)
    ensures
        r@.len() == spec_profanity_list().len(),
        forall|k: int| 0 <= k < r@.len() ==> r@[k]@ == spec_profanity_list()[k],
{
    let mut words: Vec<&'static str> = Vec::new();
    words.push("damn");
    words.push("hell");
    words.push("crap");
    words.push("arse");
    words
}

/// ASCII lowercase folding of one character; other characters are unchanged.
pub open spec fn spec_lower_char(c: char) -> char {
    if 'A' <= c && c <= 'Z' {
        ((c as u32) + 32) as char
    } else {
        c
    }
}

/// ASCII lowercase folding of a whole character sequence.
pub open spec fn spec_lower(s: Seq<char>) -> Seq<char> {
    s.map_values(|c: char| spec_lower_char(c))
}

/// `needle` occurs in `hay` starting at index `i`.
pub open spec fn spec_contains_at(hay: Seq<char>, needle: Seq<char>, i: int) -> bool {
    0 <= i && i + needle.len() <= hay.len() && hay.subrange(i, i + needle.len()) == needle
}

/// `needle` occurs somewhere in `hay`.
pub open spec fn spec_contains_substr(hay: Seq<char>, needle: Seq<char>) -> bool {
    exists|i: int| spec_contains_at(hay, needle, i)
}

/// The words of `words` that occur in `lower`, in list order.
pub open spec fn spec_found(words: Seq<Seq<char>>, lower: Seq<char>) -> Seq<Seq<char>>
    decreases words.len(),
{
    if words.len() == 0 {
        Seq::empty()
    } else {
        let rest = spec_found(words.drop_last(), lower);
        if spec_contains_substr(lower, words.last()) {
            rest.push(words.last())
        } else {
            rest
        }
    }
}

/// The disallowed words that occur in the lowercase folding of `name`.
pub open spec fn spec_found_profanity(name: Seq<char>) -> Seq<Seq<char>> {
    spec_found(spec_profanity_list(), spec_lower(name))
}

/// A name the validator accepts: length within bounds and no disallowed word
/// in its lowercase folding.
pub open spec fn spec_valid_username(name: Seq<char>) -> bool {
    MIN_LENGTH <= name.len() <= MAX_LENGTH && spec_found_profanity(name).len() == 0
}

fn lower_ascii(s: &str) -> (r: Vec<char>)
    ensures
        r@ == spec_lower(s@),
{
    let n = s.unicode_len();
    let mut out: Vec<char> = Vec::new();
    let mut i: usize = 0;
    while i < n
        invariant
            n == s@.len(),
            i <= n,
            out@.len() == i,
            forall|l: int| 0 <= l < i ==> out@[l] == spec_lower_char(s@[l]),
        decreases n - i,
    {
        let c = s.get_char(i);
        let lc: char = if c >= 'A' && c <= 'Z' {
            (((c as u32) + 32) as u8) as char
        } else {
            c
        };
        out.push(lc);
        i += 1;
    }
    proof {
        assert(out@ =~= spec_lower(s@));
    }
    out
}

fn contains_substr(hay: &Vec<char>, needle: &str) -> (r: bool)
    ensures
        r == spec_contains_substr(hay@, needle@),
{
    let n = needle.unicode_len();
    if n > hay.len() {
        proof {
            assert(forall|i: int| !spec_contains_at(hay@, needle@, i));
        }
        return false;
    }
    if n == 0 {
        proof {
            assert(hay@.subrange(0, 0) =~= needle@);
            assert(spec_contains_at(hay@, needle@, 0));
        }
        return true;
    }
    let mut i: usize = 0;
    while i <= hay.len() - n
        invariant
            n == needle@.len(),
            1 <= n <= hay@.len(),
            i <= hay@.len() - n + 1,
            forall|k: int| 0 <= k < i ==> !spec_contains_at(hay@, needle@, k),
        decreases hay@.len() - n - i + 1,
    {
        let mut j: usize = 0;
        let mut is_match = true;
        while j < n && is_match
            invariant
                n == needle@.len(),
                n <= hay@.len(),
                hay@.len() <= usize::MAX,
                i + n <= hay@.len(),
                j <= n,
                is_match ==> forall|l: int| 0 <= l < j ==> hay@[i + l] == needle@[l],
                !is_match ==> !spec_contains_at(hay@, needle@, i as int),
            decreases n - j,
        {
            if *vstd::slice::slice_index_get(hay.as_slice(), i + j) != needle.get_char(j) {
                is_match = false;
                proof {
                    let jj = j as int;
                    assert(hay@.subrange(i as int, i + needle@.len())[jj] != needle@[jj]);
                }
            }
            j += 1;
        }
        if is_match {
            proof {
                assert(hay@.subrange(i as int, i + needle@.len()) =~= needle@);
                assert(spec_contains_at(hay@, needle@, i as int));
            }
            return true;
        }
        i += 1;
    }
    proof {
        assert forall|k: int| !spec_contains_at(hay@, needle@, k) by {
            if 0 <= k < i {
            } else if k + needle@.len() <= hay@.len() && 0 <= k {
                assert(k < i);
            }
        }
    }
    false
}

/// Finds every disallowed word in `val`, case-insensitively; `None` when the
/// name is clean.
fn find_profanity(val: &str) -> (r: Option<Vec<String>>)
    ensures
        match r {
            Some(found) => found.deep_view() == spec_found_profanity(val@) && found@.len() > 0,
            None => spec_found_profanity(val@).len() == 0,
        },
{
    let lower = lower_ascii(val);
    let words = profanity_words();
    let mut found: Vec<String> = Vec::new();
    let mut k: usize = 0;
    while k < words.len()
        invariant
            words@.len() == spec_profanity_list().len(),
            forall|l: int| 0 <= l < words@.len() ==> words@[l]@ == spec_profanity_list()[l],
            lower@ == spec_lower(val@),
            k <= words@.len(),
            found.deep_view() == spec_found(spec_profanity_list().take(k as int), lower@),
        decreases words@.len() - k,
    {
        proof {
            let t = spec_profanity_list().take(k + 1 as int);
            assert(t.drop_last() =~= spec_profanity_list().take(k as int));
            assert(t.last() == spec_profanity_list()[k as int]);
        }
        let w = *vstd::slice::slice_index_get(words.as_slice(), k);
        if contains_substr(&lower, w) {
            let ghost old_dv = found.deep_view();
            found.push(String::from_str(w));
            proof {
                assert(found.deep_view() =~= old_dv.push(spec_profanity_list()[k as int]));
            }
        }
        k += 1;
    }
    proof {
        assert(spec_profanity_list().take(words@.len() as int) =~= spec_profanity_list());
    }
    if found.len() > 0 {
        Some(found)
    } else {
        proof {
            assert(spec_found_profanity(val@).len() == found.deep_view().len());
        }
        None
    }
}

/// Validates a username: rejects names shorter than [`MIN_LENGTH`], longer
/// than [`MAX_LENGTH`], or containing a disallowed word, in that order of
/// precedence; accepts exactly the names [`spec_valid_username`] describes.
pub fn validate_username(name: &str) -> (r: Result<(), ValidationError>)
    ensures
        r is Ok <==> spec_valid_username(name@),
        match r {
            Ok(_) => true,
            Err(e) => match e {
                ValidationError::TooShort => name@.len() < MIN_LENGTH,
                ValidationError::TooLong => name@.len() > MAX_LENGTH,
                ValidationError::ContainsProfanity(found) => MIN_LENGTH <= name@.len()
                    <= MAX_LENGTH && found.deep_view() == spec_found_profanity(name@)
                    && found@.len() > 0,
            },
        },
{
    let len = name.unicode_len();
    if len < MIN_LENGTH {
        return Err(ValidationError::TooShort);
    }
    if len > MAX_LENGTH {
        return Err(ValidationError::TooLong);
    }
    match find_profanity(name) {
        Some(found) => Err(ValidationError::ContainsProfanity(found)),
        None => Ok(()),
    }
}

} // verus!
