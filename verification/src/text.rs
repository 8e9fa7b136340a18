//! Small operations on text that the document builders share: comparing,
//! appending a character, and replacing a token.

use vstd::prelude::*;
use vstd::string::*;

verus! {

/// Appends one character to `s`.
///
/// Trusted: the body is `String::push` of the standard library, which is
/// documented to append the given `char` to the end of the string. The
/// contract claims exactly that and nothing about capacity.
#[verifier::external_body]
pub(crate) fn push_char(s: &mut String, c: char)
    ensures
        final(s)@ == old(s)@.push(c),
{
    s.push(c);
}

/// Whether two string slices hold the same characters.
pub(crate) fn same_text(a: &str, b: &str) -> (r: bool)
    ensures
        r == (a@ == b@),
{
    String::from_str(a) == String::from_str(b)
}

/// The characters of `s`, in order.
pub(crate) fn chars_of(s: &str) -> (v: Vec<char>)
    ensures
        v@ == s@,
{
    let mut v: Vec<char> = Vec::new();
    for c in it: s.chars()
        invariant
            it.seq() == s@,
            v@ == s@.take(it.index() as int),
    {
        v.push(c);
    }
    v
}

/// `text` with every occurrence of `token` replaced by `value`.
///
/// The text is read from the left. Where `token` starts at the current
/// position it is replaced as a whole and reading goes on behind it, so
/// occurrences never overlap and a replacement is never read again.
/// Anywhere else one character is kept. An empty token occurs nowhere.
pub open spec fn replaced(text: Seq<char>, token: Seq<char>, value: Seq<char>) -> Seq<char>
    decreases text.len(),
{
    if token.len() == 0 || text.len() == 0 {
        text
    } else if token.is_prefix_of(text) {
        value + replaced(text.skip(token.len() as int), token, value)
    } else {
        seq![text[0]] + replaced(text.skip(1), token, value)
    }
}

/// Whether `token` stands somewhere in `text`.
pub open spec fn occurs_in(token: Seq<char>, text: Seq<char>) -> bool {
    exists|i: int| 0 <= i <= text.len() && token.is_prefix_of(#[trigger] text.skip(i))
}

/// A text in which the token stands nowhere is left as it is: that a token
/// is missing is no error.
pub proof fn lemma_replaced_without_occurrence(
    text: Seq<char>,
    token: Seq<char>,
    value: Seq<char>,
)
    requires
        !occurs_in(token, text),
    ensures
        replaced(text, token, value) == text,
    decreases text.len(),
{
    if token.len() > 0 && text.len() > 0 {
        assert(text.skip(0) =~= text);
        assert forall|i: int| 0 <= i <= text.skip(1).len() implies !token.is_prefix_of(
            #[trigger] text.skip(1).skip(i),
        ) by {
            assert(text.skip(1).skip(i) =~= text.skip(i + 1));
        }
        lemma_replaced_without_occurrence(text.skip(1), token, value);
        assert(seq![text[0]] + text.skip(1) =~= text);
    }
}

/// Whether `token` stands in `text` at position `at`.
fn occurs_at(text: &Vec<char>, at: usize, token: &Vec<char>) -> (r: bool)
    requires
        at <= text.len(),
    ensures
        r == token@.is_prefix_of(text@.skip(at as int)),
{
    if token.len() > text.len() - at {
        return false;
    }
    let mut j: usize = 0;
    while j < token.len()
        invariant
            at <= text.len(),
            token.len() <= text.len() - at,
            j <= token.len(),
            forall|k: int| 0 <= k < j ==> token@[k] == text@[at + k],
        decreases token.len() - j,
    {
        if token[j] != text[at + j] {
            assert(token@[j as int] != text@.skip(at as int)[j as int]);
            return false;
        }
        j += 1;
    }
    assert(token@ =~= text@.skip(at as int).subrange(0, token@.len() as int));
    true
}

/// Replaces every occurrence of `token` in `text` by `value`, as
/// [`replaced`] says.
pub fn replace_token(text: &str, token: &str, value: &str) -> (r: String)
    ensures
        r@ == replaced(text@, token@, value@),
{
    let t = chars_of(text);
    let k = chars_of(token);
    if k.len() == 0 {
        return String::from_str(text);
    }
    let mut out = String::new();
    let mut i: usize = 0;
    assert(t@.skip(0) =~= t@);
    while i < t.len()
        invariant
            i <= t.len(),
            k.len() > 0,
            t@ == text@,
            k@ == token@,
            replaced(text@, token@, value@) == out@ + replaced(
                t@.skip(i as int),
                token@,
                value@,
            ),
        decreases t.len() - i,
    {
        let ghost rest = t@.skip(i as int);
        if occurs_at(&t, i, &k) {
            assert(rest.skip(k@.len() as int) =~= t@.skip(i + k@.len()));
            out.append(value);
            i += k.len();
        } else {
            assert(rest.skip(1) =~= t@.skip(i + 1));
            push_char(&mut out, t[i]);
            i += 1;
        }
    }
    out
}

} // verus!
