//! Identifiers of projects and solutions: four segments of random
//! characters, of 8, 4, 4 and 12 characters, joined by hyphens.

use crate::text::push_char;
use vstd::prelude::*;
use vstd::string::*;

verus! {

/// The characters an identifier is drawn from: the capital letters and the
/// digits but zero.
pub const CHARSET: &'static str = "ABCDEFGHIJKLMNOPQRSTUVWXYZ123456789";

/// Whether `c` may stand in a segment of an identifier.
pub open spec fn in_alphabet(c: char) -> bool {
    ('A' <= c && c <= 'Z') || ('1' <= c && c <= '9')
}

/// Whether `s` is a segment of `length` characters of the alphabet.
pub open spec fn is_segment(s: Seq<char>, length: nat) -> bool {
    &&& s.len() == length
    &&& forall|i: int| 0 <= i < s.len() ==> in_alphabet(#[trigger] s[i])
}

/// Four segments joined by hyphens.
pub open spec fn joined(a: Seq<char>, b: Seq<char>, c: Seq<char>, d: Seq<char>) -> Seq<char> {
    a.push('-') + b.push('-') + c.push('-') + d
}

/// Whether a hyphen stands at position `i` of an identifier.
pub open spec fn is_hyphen_position(i: int) -> bool {
    i == 8 || i == 13 || i == 18
}

/// Whether `s` has the shape of an identifier: 31 characters, hyphens at
/// the three positions that part the segments, and characters of the
/// alphabet everywhere else.
pub open spec fn is_identifier(s: Seq<char>) -> bool {
    &&& s.len() == 31
    &&& forall|i: int|
        #![trigger s[i]]
        0 <= i < 31 ==> if is_hyphen_position(i) {
            s[i] == '-'
        } else {
            in_alphabet(s[i])
        }
}

/// [`CHARSET`] holds the alphabet and nothing else.
pub proof fn lemma_charset_is_alphabet(c: char)
    ensures
        CHARSET@.contains(c) <==> in_alphabet(c),
{
    reveal_strlit("ABCDEFGHIJKLMNOPQRSTUVWXYZ123456789");
    if CHARSET@.contains(c) {
        let i = choose|i: int| 0 <= i < CHARSET@.len() && CHARSET@[i] == c;
        assert(in_alphabet(CHARSET@[i]));
    }
    if in_alphabet(c) {
        let i: int = if 'A' <= c && c <= 'Z' {
            c as int - 'A' as int
        } else {
            26 + c as int - '1' as int
        };
        assert(CHARSET@[i] == c);
    }
}

/// Segments of 8, 4, 4 and 12 characters, joined, make an identifier.
pub proof fn lemma_joined_segments_are_identifier(
    a: Seq<char>,
    b: Seq<char>,
    c: Seq<char>,
    d: Seq<char>,
)
    requires
        is_segment(a, 8),
        is_segment(b, 4),
        is_segment(c, 4),
        is_segment(d, 12),
    ensures
        is_identifier(joined(a, b, c, d)),
{
    let s = joined(a, b, c, d);
    assert forall|i: int| #![trigger s[i]] 0 <= i < 31 implies if is_hyphen_position(i) {
        s[i] == '-'
    } else {
        in_alphabet(s[i])
    } by {
        if i < 8 {
            assert(s[i] == a[i]);
        } else if 8 < i < 13 {
            assert(s[i] == b[i - 9]);
        } else if 13 < i < 18 {
            assert(s[i] == c[i - 14]);
        } else if 18 < i {
            assert(s[i] == d[i - 19]);
        }
    }
}

/// A string of `length` characters, each picked at random from `charset`.
///
/// Trusted: the body is `random_string::generate`. That function collects
/// the characters of the charset, panics where there is none, and pushes
/// `length` times one of them, picked by `fastrand::usize` with an index
/// below their number. The contract claims the length and where each
/// character comes from, which holds whatever is picked. It leaves out an
/// empty charset and a length whose characters, at up to four bytes each,
/// could not be stored.
#[verifier::external_body]
fn random_text(length: usize, charset: &str) -> (s: String)
    requires
        charset@.len() > 0,
        4 * length <= isize::MAX,
    ensures
        s@.len() == length,
        forall|i: int| 0 <= i < s@.len() ==> charset@.contains(#[trigger] s@[i]),
{
    random_string::generate(length, charset)
}

/// A random segment of `length` characters of the alphabet.
fn generate_random_string(length: usize) -> (s: String)
    requires
        4 * length <= isize::MAX,
    ensures
        is_segment(s@, length as nat),
{
    proof {
        reveal_strlit("ABCDEFGHIJKLMNOPQRSTUVWXYZ123456789");
    }
    let s = random_text(length, CHARSET);
    assert forall|i: int| 0 <= i < s@.len() implies in_alphabet(#[trigger] s@[i]) by {
        lemma_charset_is_alphabet(s@[i]);
    }
    s
}

/// Joins four segments by hyphens.
pub fn join_segments(a: &str, b: &str, c: &str, d: &str) -> (r: String)
    ensures
        r@ == joined(a@, b@, c@, d@),
{
    let mut r = String::from_str(a);
    push_char(&mut r, '-');
    r.append(b);
    push_char(&mut r, '-');
    r.append(c);
    push_char(&mut r, '-');
    r.append(d);
    assert(r@ =~= joined(a@, b@, c@, d@));
    r
}

/// A fresh identifier. Which characters it holds is left to chance; its
/// shape is not.
pub fn generate_guid() -> (r: String)
    ensures
        is_identifier(r@),
{
    let a = generate_random_string(8);
    let b = generate_random_string(4);
    let c = generate_random_string(4);
    let d = generate_random_string(12);
    proof {
        lemma_joined_segments_are_identifier(a@, b@, c@, d@);
    }
    join_segments(a.as_str(), b.as_str(), c.as_str(), d.as_str())
}

} // verus!
