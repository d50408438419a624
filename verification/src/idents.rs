//! Identifier-case conversion used when deriving accessor names from
//! declared case names: PascalCase to snake_case. An uppercase letter
//! opens a new word unless the previous character was uppercase too, so
//! an acronym stays one word; the leading letter never gets a separator.

use vstd::prelude::*;

use vstd::string::StrSliceExecFns;

verus! {

/// Whether a character has the Unicode uppercase property: the result of
/// char::is_uppercase, a function of the character alone.
pub uninterp spec fn is_upper_of(c: char) -> bool;

/// Relies on char::is_uppercase: the Unicode uppercase property. On ASCII
/// it holds exactly of the letters A through Z.
#[verifier::external_body]
fn char_is_uppercase(c: char) -> (r: bool)
    ensures
        r == is_upper_of(c),
        65 <= (c as u32) && (c as u32) <= 90 ==> r,
        (c as u32) < 128 && !(65 <= (c as u32) && (c as u32) <= 90) ==> !r,
{
    c.is_uppercase()
}

/// Relies on String::push: appends one character at the end.
#[verifier::external_body]
fn push_char(s: &mut String, c: char)
    ensures
        final(s)@ == old(s)@.push(c),
{
    s.push(c);
}

/// An ASCII uppercase letter mapped to its lowercase form; any other
/// character unchanged.
pub open spec fn lower_of(c: char) -> char {
    if 65 <= (c as u32) && (c as u32) <= 90 {
        (c as u32 + 32) as char
    } else {
        c
    }
}

fn ascii_lower(c: char) -> (r: char)
    ensures
        r == lower_of(c),
{
    let u = c as u32;
    if 65 <= u && u <= 90 {
        match crate::scalars::char_from_u32(u + 32) {
            Some(r) => {
                proof {
                    vstd::utf8::char_u32_cast(r, (u + 32) as u32);
                }
                r
            },
            None => {
                proof {
                    assert(false);
                }
                c
            },
        }
    } else {
        c
    }
}

/// The uppercase state after processing `s`, starting from `prev`: the
/// last character's case, or `prev` if there is none.
pub open spec fn upper_state(s: Seq<char>, prev: bool) -> bool {
    if s.len() == 0 {
        prev
    } else {
        is_upper_of(s.last())
    }
}

/// The snake_case image of `s`, with `prev` the case of the character
/// just before `s` (true at the start of a name, so it never opens with
/// a separator).
pub open spec fn snake_of(s: Seq<char>, prev: bool) -> Seq<char>
    decreases s.len(),
{
    if s.len() == 0 {
        Seq::empty()
    } else {
        let c = s[0];
        let head = if is_upper_of(c) {
            if prev {
                seq![lower_of(c)]
            } else {
                seq!['_', lower_of(c)]
            }
        } else {
            seq![c]
        };
        head + snake_of(s.skip(1), is_upper_of(c))
    }
}

/// What one more character adds to the snake_case image.
pub proof fn lemma_snake_push(s: Seq<char>, prev: bool, x: char)
    ensures
        snake_of(s.push(x), prev) == snake_of(s, prev) + (if is_upper_of(x) {
            if upper_state(s, prev) {
                seq![lower_of(x)]
            } else {
                seq!['_', lower_of(x)]
            }
        } else {
            seq![x]
        }),
    decreases s.len(),
{
    let step = if is_upper_of(x) {
        if upper_state(s, prev) {
            seq![lower_of(x)]
        } else {
            seq!['_', lower_of(x)]
        }
    } else {
        seq![x]
    };
    if s.len() == 0 {
        assert(s.push(x)[0] == x);
        assert(s.push(x).skip(1) =~= Seq::<char>::empty());
        assert(snake_of(s.push(x).skip(1), is_upper_of(x)) == Seq::<char>::empty());
        assert(snake_of(s.push(x), prev) =~= snake_of(s, prev) + step);
    } else {
        assert(s.push(x)[0] == s[0]);
        assert(s.push(x).skip(1) =~= s.skip(1).push(x));
        lemma_snake_push(s.skip(1), is_upper_of(s[0]), x);
        assert(upper_state(s.skip(1), is_upper_of(s[0])) == upper_state(s, prev)) by {
            if s.len() > 1 {
                assert(s.skip(1).last() == s.last());
            }
        }
        assert(snake_of(s.push(x), prev) =~= snake_of(s, prev) + step);
    }
}

/// Converts a PascalCase name to snake_case: each uppercase letter is
/// lowered, and preceded by an underscore unless the previous character
/// was uppercase too (so a run of capitals stays one word, and the first
/// letter gets no separator).
pub fn pascal_to_snake(s: &str) -> (r: String)
    ensures
        r@ == snake_of(s@, true),
{
    let n = s.unicode_len();
    let mut result = String::new();
    let mut prev_is_upper = true;
    let mut i: usize = 0;
    while i < n
        invariant
            i <= n,
            n == s@.len(),
            result@ == snake_of(s@.take(i as int), true),
            prev_is_upper == upper_state(s@.take(i as int), true),
        decreases n - i,
    {
        let ghost i0 = i as int;
        let c = s.get_char(i);
        let up = char_is_uppercase(c);
        if up {
            if !prev_is_upper {
                push_char(&mut result, '_');
            }
            push_char(&mut result, ascii_lower(c));
        } else {
            push_char(&mut result, c);
        }
        prev_is_upper = up;
        i = i + 1;
        proof {
            assert(s@.take(i0 + 1) =~= s@.take(i0).push(s@[i0]));
            lemma_snake_push(s@.take(i0), true, s@[i0]);
            assert(result@ =~= snake_of(s@.take(i0 + 1), true));
            assert(s@.take(i0 + 1).last() == s@[i0]);
        }
    }
    proof {
        assert(s@.take(n as int) =~= s@);
    }
    result
}

} // verus!
