//! Names that the scaffolding of a guest derives: the field of an
//! environment variable and the handler of a route or a topic.

use vstd::prelude::*;
use vstd::string::StringExecFns;
use crate::text::{char_text, to_chars};

verus! {

/// The lower-case form of a text, as `str::to_lowercase` gives it.
pub uninterp spec fn lowercased(text: Seq<char>) -> Seq<char>;

/// Calls `str::to_lowercase`. What comes back depends on the text alone:
/// the contract names it.
#[verifier::external_body]
fn lowercase(text: &str) -> (r: String)
    ensures
        r@ == lowercased(text@),
{
    text.to_lowercase()
}

/// The name of the field for an environment variable: the variable's name
/// in lower case.
pub fn to_snake_case(s: &str) -> (r: String)
    ensures
        r@ == lowercased(s@),
{
    lowercase(s)
}

/// How many slashes stand at the front of `s`.
pub open spec fn leading_slashes(s: Seq<char>) -> nat
    decreases s.len(),
{
    if s.len() > 0 && s[0] == '/' {
        1 + leading_slashes(s.skip(1))
    } else {
        0
    }
}

/// What a character of a path becomes in a handler's name: a slash, a
/// hyphen and a dot become an underscore, a brace is dropped, anything else
/// stays.
pub open spec fn name_piece(c: char) -> Seq<char> {
    if c == '/' || c == '-' || c == '.' {
        seq!['_']
    } else if c == '{' || c == '}' {
        Seq::<char>::empty()
    } else {
        seq![c]
    }
}

/// The pieces of the first `n` characters of `s`, one after the other.
pub open spec fn name_pieces(s: Seq<char>, n: nat) -> Seq<char>
    decreases n,
{
    if n == 0 || n > s.len() {
        Seq::<char>::empty()
    } else {
        name_pieces(s, (n - 1) as nat) + name_piece(s[n - 1])
    }
}

/// The name of the handler of a path or a topic: the slashes at its front
/// are dropped, every other slash, hyphen and dot becomes an underscore,
/// braces are dropped, and the whole is put in lower case.
pub open spec fn handler_name_text(path: Seq<char>) -> Seq<char> {
    let rest = path.skip(leading_slashes(path) as int);
    lowercased(name_pieces(rest, rest.len()))
}

/// A text whose first `k` characters are slashes, and no more, has `k`
/// leading slashes.
proof fn lemma_leading_slashes(s: Seq<char>, k: int)
    requires
        0 <= k <= s.len(),
        forall|j: int| 0 <= j < k ==> s[j] == '/',
        k == s.len() || s[k] != '/',
    ensures
        leading_slashes(s) == k,
    decreases k,
{
    if k > 0 {
        let t = s.skip(1);
        assert forall|j: int| 0 <= j < k - 1 implies t[j] == '/' by {
            assert(t[j] == s[j + 1]);
        }
        if k - 1 < t.len() {
            assert(t[k - 1] == s[k]);
        }
        lemma_leading_slashes(t, k - 1);
        assert(s[0] == '/');
    }
}

/// The name of the handler of a path or a topic.
pub fn handler_name(path: &str) -> (r: String)
    ensures
        r@ == handler_name_text(path@),
{
    let chars = to_chars(path);
    let mut start: usize = 0;
    while start < chars.len() && chars[start] == '/'
        invariant
            start <= chars.len(),
            forall|j: int| 0 <= j < start ==> chars@[j] == '/',
        decreases chars.len() - start,
    {
        start = start + 1;
    }
    proof {
        lemma_leading_slashes(chars@, start as int);
    }
    let ghost rest = chars@.skip(start as int);
    let mut name = String::new();
    let mut i: usize = start;
    while i < chars.len()
        invariant
            start <= i <= chars.len(),
            rest == chars@.skip(start as int),
            name@ == name_pieces(rest, (i - start) as nat),
        decreases chars.len() - i,
    {
        let c = chars[i];
        proof {
            assert(rest[i - start] == c);
        }
        if c == '/' || c == '-' || c == '.' {
            name.append("_");
            proof {
                reveal_strlit("_");
                assert("_"@ =~= seq!['_']);
            }
        } else if c == '{' || c == '}' {
        } else {
            let piece = char_text(c);
            name.append(piece.as_str());
        }
        i = i + 1;
        proof {
            assert(name@ =~= name_pieces(rest, (i - start) as nat));
        }
    }
    lowercase(name.as_str())
}

} // verus!
