// This Source Code Form is subject to the terms of the Mozilla Public
// License, v. 2.0. If a copy of the MPL was not distributed with this
// file, You can obtain one at http://mozilla.org/MPL/2.0/.
//
// Copyright (c) DUSK NETWORK. All rights reserved.

//! Prefix tests on strings, stated over their sequences of characters.

use vstd::prelude::*;
use vstd::std_specs::iter::IteratorSpec;

verus! {

/// What follows `prefix` at the start of `text`: `None` where `text` does not
/// begin with `prefix`, `Some(None)` where `text` ends right after it, and
/// otherwise the first character after it.
pub open spec fn char_after(text: Seq<char>, prefix: Seq<char>) -> Option<Option<char>> {
    if !prefix.is_prefix_of(text) {
        None
    } else if text.len() == prefix.len() {
        Some(None)
    } else {
        Some(Some(text[prefix.len() as int]))
    }
}

/// Reads `text` and `prefix` side by side, once, and tells what follows the
/// prefix.
pub fn next_after_prefix(text: &str, prefix: &str) -> (next: Option<Option<char>>)
    ensures
        next == char_after(text@, prefix@),
{
    let mut rest = text.chars();
    let mut wanted = prefix.chars();
    let ghost mut seen: int = 0;
    loop
        invariant
            0 <= seen <= prefix@.len(),
            seen <= text@.len(),
            rest.remaining() == text@.skip(seen),
            wanted.remaining() == prefix@.skip(seen),
            text@.take(seen) == prefix@.take(seen),
        decreases prefix@.len() - seen,
    {
        match wanted.next() {
            None => {
                return Some(rest.next());
            },
            Some(w) => {
                match rest.next() {
                    None => {
                        return None;
                    },
                    Some(c) => {
                        if c != w {
                            return None;
                        }
                        proof {
                            seen = seen + 1;
                        }
                    },
                }
            },
        }
    }
}

/// Whether `text` begins with `prefix`.
pub fn starts_with(text: &str, prefix: &str) -> (found: bool)
    ensures
        found == prefix@.is_prefix_of(text@),
{
    next_after_prefix(text, prefix).is_some()
}

/// Whether the two strings hold the same characters.
pub fn same_text(left: &str, right: &str) -> (same: bool)
    ensures
        same == (left@ == right@),
{
    proof {
        if right@.is_prefix_of(left@) && left@.len() == right@.len() {
            assert(left@.subrange(0, right@.len() as int) =~= left@);
        }
    }
    match next_after_prefix(left, right) {
        Some(None) => true,
        _ => false,
    }
}

/// `text` without `prefix` at its start, or `None` where it does not begin
/// with `prefix`.
pub fn strip_prefix<'a>(text: &'a str, prefix: &str) -> (rest: Option<&'a str>)
    ensures
        match rest {
            Some(tail) => prefix@.is_prefix_of(text@) && tail@ == text@.skip(prefix@.len() as int),
            None => !prefix@.is_prefix_of(text@),
        },
{
    if starts_with(text, prefix) {
        let from = prefix.unicode_len();
        let to = text.unicode_len();
        Some(text.substring_char(from, to))
    } else {
        None
    }
}

} // verus!
