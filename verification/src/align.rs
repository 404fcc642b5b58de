//! The alignment engine: pads a trimmed string with spaces to an exact target
//! length under a `Left`, `Center` or `Right` policy. When the total padding
//! for `Center` is odd, the extra space goes to the right side.

use vstd::prelude::*;

use crate::text::{is_ws_char, push_spaces, spaces, trim_back, trim_front, trim_str, trimmed};
use crate::text::lemma_trimmed;

verus! {

/// Where the text sits inside the padded field.
#[derive(Clone, Copy)]
pub enum Position {
    Left,
    Center,
    Right,
}

/// Returned when the requested field is narrower than the trimmed content
/// that must fit in it.
#[derive(Debug, Clone, Copy, PartialEq, Eq, Structural)]
pub struct CapacityExceeded;

/// `core` padded with spaces to exactly `length` characters. For `Center`,
/// the left side gets the floor of half the padding, so an odd surplus goes
/// to the right.
pub open spec fn pad_spec(core: Seq<char>, length: nat, position: Position) -> Seq<char> {
    let n = (length - core.len()) as nat;
    match position {
        Position::Left => core + spaces(n),
        Position::Right => spaces(n) + core,
        Position::Center => spaces(n / 2) + core + spaces((n - n / 2) as nat),
    }
}

/// What aligning returns: the trimmed text padded to `length`, or nothing
/// when the trimmed text is longer than `length`.
pub open spec fn align_spec(s: Seq<char>, length: nat, position: Position) -> Option<Seq<char>> {
    if trimmed(s).len() <= length {
        Some(pad_spec(trimmed(s), length, position))
    } else {
        None
    }
}

/// Trims `string`, then pads it with spaces to exactly `length` characters
/// under `position`; fails if the trimmed text is longer than `length`.
/// Whenever it succeeds, the result has exactly `length` characters, for
/// every policy.
pub fn align_string_with_ws(string: String, length: usize, position: Position) -> (r: Result<
    String,
    CapacityExceeded,
>)
    ensures
        r matches Ok(a) ==> Some(a@) == align_spec(string@, length as nat, position) && a@.len()
            == length,
        r is Ok <==> trimmed(string@).len() <= length,
{
    let t = trim_str(string.as_str());
    let tl = t.as_str().unicode_len();
    if tl > length {
        return Err(CapacityExceeded);
    }
    let n = length - tl;
    match position {
        Position::Left => {
            let mut out = t;
            push_spaces(&mut out, n);
            Ok(out)
        },
        Position::Right => {
            let mut out = String::new();
            push_spaces(&mut out, n);
            out.append(t.as_str());
            proof {
                assert(out@ =~= spaces(n as nat) + trimmed(string@));
            }
            Ok(out)
        },
        Position::Center => {
            let left = n / 2;
            let right = n - left;
            let mut out = String::new();
            push_spaces(&mut out, left);
            out.append(t.as_str());
            push_spaces(&mut out, right);
            proof {
                assert(out@ =~= spaces((left as nat)) + trimmed(string@) + spaces((right as nat)));
            }
            Ok(out)
        },
    }
}

/// Trimming a string whose ends are not whitespace leaves it unchanged.
pub proof fn lemma_trimmed_idempotent(s: Seq<char>)
    ensures
        trimmed(trimmed(s)) == trimmed(s),
{
    lemma_trimmed(s);
    let t = trimmed(s);
    assert(trim_front(t) == t);
    assert(trim_back(t) == t);
}

proof fn lemma_trim_front_spaces(l: nat, x: Seq<char>)
    ensures
        trim_front(spaces(l) + x) == trim_front(x),
    decreases l,
{
    if l == 0 {
        assert(spaces(0) + x =~= x);
    } else {
        assert((spaces(l) + x)[0] == ' ');
        assert((spaces(l) + x).skip(1) =~= spaces((l - 1) as nat) + x);
        lemma_trim_front_spaces((l - 1) as nat, x);
    }
}

proof fn lemma_trim_back_spaces(x: Seq<char>, r: nat)
    ensures
        trim_back(x + spaces(r)) == trim_back(x),
    decreases r,
{
    if r == 0 {
        assert(x + spaces(0) =~= x);
    } else {
        assert((x + spaces(r)).last() == ' ');
        assert((x + spaces(r)).drop_last() =~= x + spaces((r - 1) as nat));
        lemma_trim_back_spaces(x, (r - 1) as nat);
    }
}

/// Trimming a string made of a whitespace-free-ended core surrounded by
/// spaces gives back exactly the core.
proof fn lemma_trimmed_padded(core: Seq<char>, l: nat, r: nat)
    requires
        core.len() > 0 ==> !is_ws_char(core[0]) && !is_ws_char(core.last()),
    ensures
        trimmed(spaces(l) + core + spaces(r)) == core,
{
    assert(spaces(l) + core + spaces(r) =~= spaces(l) + (core + spaces(r)));
    lemma_trim_front_spaces(l, core + spaces(r));
    if core.len() == 0 {
        assert(core + spaces(r) =~= spaces(r) + Seq::<char>::empty());
        lemma_trim_front_spaces(r, Seq::<char>::empty());
        assert(trim_front(Seq::<char>::empty()) =~= Seq::<char>::empty());
        assert(trimmed(spaces(l) + core + spaces(r)) =~= core);
    } else {
        assert((core + spaces(r))[0] == core[0]);
        assert(trim_front(core + spaces(r)) == core + spaces(r));
        lemma_trim_back_spaces(core, r);
        assert(trim_back(core) == core);
    }
}

/// The padded result trims back to the very core it was padded from.
pub proof fn lemma_align_preserves_core(s: Seq<char>, length: nat, position: Position)
    requires
        trimmed(s).len() <= length,
    ensures
        trimmed(pad_spec(trimmed(s), length, position)) == trimmed(s),
{
    lemma_trimmed(s);
    let core = trimmed(s);
    let n = (length - core.len()) as nat;
    match position {
        Position::Left => {
            assert(core + spaces(n) =~= spaces(0) + core + spaces(n));
            lemma_trimmed_padded(core, 0, n);
        },
        Position::Right => {
            assert(spaces(n) + core =~= spaces(n) + core + spaces(0));
            lemma_trimmed_padded(core, n, 0);
        },
        Position::Center => {
            lemma_trimmed_padded(core, n / 2, (n - n / 2) as nat);
        },
    }
}

/// Aligning is idempotent on its trimming: re-trimming an aligned string
/// yields the same trimmed core, and aligning that core again, with the same
/// length and policy, returns the aligned string unchanged.
pub proof fn lemma_align_idempotent(s: Seq<char>, length: nat, position: Position)
    requires
        align_spec(s, length, position) is Some,
    ensures
        ({
            let a = align_spec(s, length, position)->Some_0;
            &&& trimmed(a) == trimmed(s)
            &&& align_spec(trimmed(a), length, position) == align_spec(s, length, position)
            &&& align_spec(a, length, position) == align_spec(s, length, position)
        }),
{
    lemma_align_preserves_core(s, length, position);
    lemma_trimmed_idempotent(s);
}

} // verus!
