//! Banner text styles: framing a message in dots, shouting it in uppercase
//! with exclamation marks, and capitalizing the words of a sentence.

use vstd::prelude::*;

use crate::text::{is_ws, is_ws_char, str_to_chars};

verus! {

/// What uppercasing a whole string yields; a function of its characters
/// alone.
pub uninterp spec fn upper_of(s: Seq<char>) -> Seq<char>;

/// Relies on `str::to_uppercase`: the uppercase form of the string, a
/// function of its characters alone.
#[verifier::external_body]
fn to_uppercase_str(s: &str) -> (r: String)
    ensures
        r@ == upper_of(s@),
{
    s.to_uppercase()
}

/// What uppercasing one character yields (it may be more than one
/// character); a function of the character alone.
pub uninterp spec fn upper_char_of(c: char) -> Seq<char>;

/// Relies on `char::to_uppercase`: the uppercase mapping of the character, a
/// function of the character alone.
#[verifier::external_body]
fn to_uppercase_char(c: char) -> (r: String)
    ensures
        r@ == upper_char_of(c),
{
    c.to_uppercase().to_string()
}

/// The message framed in ten dots on each side.
pub fn dots_style(msg: &String) -> (r: String)
    ensures
        r@ == ".........."@ + msg@ + ".........."@,
{
    String::from_str("..........").concat(msg.as_str()).concat("..........")
}

/// Every character of `s` followed by an exclamation mark.
pub open spec fn shouted(s: Seq<char>) -> Seq<char>
    decreases s.len(),
{
    if s.len() == 0 {
        Seq::empty()
    } else {
        seq![s[0], '!'] + shouted(s.skip(1))
    }
}

/// The message uppercased, with an exclamation mark after every character.
pub fn admire_style(msg: &String) -> (r: String)
    ensures
        r@ == shouted(upper_of(msg@)),
{
    let upper = to_uppercase_str(msg.as_str());
    let cs = str_to_chars(upper.as_str());
    let ghost u = upper@;
    let n = cs.len();
    let mut out = String::new();
    let mut i: usize = 0;
    proof {
        assert(u.skip(0) =~= u);
        assert(out@ + shouted(u) =~= shouted(u));
    }
    while i < n
        invariant
            i <= n,
            n == u.len(),
            cs@ == u,
            shouted(u) == out@ + shouted(u.skip(i as int)),
        decreases n - i,
    {
        let ghost out0 = out@;
        out.push(cs[i]);
        out.push('!');
        proof {
            assert(u.skip(i as int)[0] == u[i as int]);
            assert(u.skip(i as int).skip(1) =~= u.skip(i as int + 1));
            assert(out0.push(u[i as int]).push('!') + shouted(u.skip(i as int + 1)) =~= out0 + (
            seq![u[i as int], '!'] + shouted(u.skip(i as int + 1))));
        }
        i = i + 1;
    }
    proof {
        assert(u.skip(n as int) =~= Seq::<char>::empty());
        assert(out@ + Seq::<char>::empty() =~= out@);
    }
    out
}

/// The capitalization pass over `s`: a whitespace character passes through
/// and makes the next character a word start; a word-start character is
/// uppercased; every other character passes through. The first character of
/// the string starts a word.
pub open spec fn capitalized(s: Seq<char>, cap_next: bool) -> Seq<char>
    decreases s.len(),
{
    if s.len() == 0 {
        Seq::empty()
    } else if is_ws_char(s[0]) {
        seq![s[0]] + capitalized(s.skip(1), true)
    } else if cap_next {
        upper_char_of(s[0]) + capitalized(s.skip(1), false)
    } else {
        seq![s[0]] + capitalized(s.skip(1), false)
    }
}

/// Uppercases the first character of every whitespace-separated word of the
/// string.
pub fn capitalize(string: String) -> (r: String)
    ensures
        r@ == capitalized(string@, true),
{
    let cs = str_to_chars(string.as_str());
    let ghost s = string@;
    let n = cs.len();
    let mut out = String::new();
    let mut cap_next = true;
    let mut i: usize = 0;
    proof {
        assert(s.skip(0) =~= s);
        assert(out@ + capitalized(s, true) =~= capitalized(s, true));
    }
    while i < n
        invariant
            i <= n,
            n == s.len(),
            cs@ == s,
            capitalized(s, true) == out@ + capitalized(s.skip(i as int), cap_next),
        decreases n - i,
    {
        let ghost out0 = out@;
        let ghost rest = s.skip(i as int);
        proof {
            assert(rest[0] == s[i as int]);
            assert(rest.skip(1) =~= s.skip(i as int + 1));
        }
        let c = cs[i];
        if is_ws(c) {
            out.push(c);
            cap_next = true;
            proof {
                assert(out0.push(c) + capitalized(s.skip(i as int + 1), true) =~= out0 + (seq![c]
                    + capitalized(s.skip(i as int + 1), true)));
            }
        } else if cap_next {
            let up = to_uppercase_char(c);
            out.append(up.as_str());
            cap_next = false;
            proof {
                assert(out0 + upper_char_of(c) + capitalized(s.skip(i as int + 1), false) =~= out0
                    + (upper_char_of(c) + capitalized(s.skip(i as int + 1), false)));
            }
        } else {
            out.push(c);
            proof {
                assert(out0.push(c) + capitalized(s.skip(i as int + 1), false) =~= out0 + (seq![c]
                    + capitalized(s.skip(i as int + 1), false)));
            }
        }
        i = i + 1;
    }
    proof {
        assert(s.skip(n as int) =~= Seq::<char>::empty());
        assert(out@ + Seq::<char>::empty() =~= out@);
    }
    out
}

} // verus!
