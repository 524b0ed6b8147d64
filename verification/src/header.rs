// This Source Code Form is subject to the terms of the Mozilla Public
// License, v. 2.0. If a copy of the MPL was not distributed with this
// file, You can obtain one at http://mozilla.org/MPL/2.0/.
//
// Copyright (c) DUSK NETWORK. All rights reserved.

//! The license header that every source file must begin with.

use crate::text::{char_after, next_after_prefix};
use vstd::prelude::*;

verus! {

/// The notice that opens every source file, byte for byte.
pub const HEADER: &'static str =
    r#"// This Source Code Form is subject to the terms of the Mozilla Public
// License, v. 2.0. If a copy of the MPL was not distributed with this
// file, You can obtain one at http://mozilla.org/MPL/2.0/.
//
// Copyright (c) DUSK NETWORK. All rights reserved.
"#;

/// A text opens with `header` when it is the header and nothing more, or the
/// header with a line break right after it.
pub open spec fn opens_with(contents: Seq<char>, header: Seq<char>) -> bool {
    contents == header || header.push('\n').is_prefix_of(contents)
}

/// Whether `contents` begins with `header`, followed by the end of the text or
/// by a line break.
pub fn begins_with_header(contents: &str, header: &str) -> (ok: bool)
    ensures
        ok == opens_with(contents@, header@),
{
    proof {
        lemma_opens_with(contents@, header@);
    }
    match next_after_prefix(contents, header) {
        Some(None) => true,
        Some(Some(c)) => c == '\n',
        None => false,
    }
}

/// Whether a source file with these contents carries the license header.
pub fn has_license_header(contents: &str) -> (ok: bool)
    ensures
        ok == opens_with(contents@, HEADER@),
{
    begins_with_header(contents, HEADER)
}

/// A text opens with the header exactly when the header stands at its start
/// and either nothing or a line break follows.
pub proof fn lemma_opens_with(contents: Seq<char>, header: Seq<char>)
    ensures
        opens_with(contents, header) <==> (char_after(contents, header) == Some(None::<char>)
            || char_after(contents, header) == Some(Some('\n'))),
{
    let n = header.len() as int;
    if header.push('\n').is_prefix_of(contents) {
        assert(contents.subrange(0, n + 1)[n] == '\n');
    }
    if header.is_prefix_of(contents) && contents.len() == n {
        assert(contents.subrange(0, n) =~= contents);
    }
}

/// The header alone opens with the header, and so does the header with a line
/// break and anything after it.
pub proof fn lemma_header_then_line_break(header: Seq<char>, rest: Seq<char>)
    ensures
        opens_with(header, header),
        opens_with(header.push('\n') + rest, header),
{
}

/// A text that stops before the header does, or that goes on after the header
/// with anything but a line break, does not open with the header.
pub proof fn lemma_header_cut_or_continued(header: Seq<char>, contents: Seq<char>)
    requires
        contents.len() < header.len() || (header.is_prefix_of(contents) && contents.len()
            > header.len() && contents[header.len() as int] != '\n'),
    ensures
        !opens_with(contents, header),
{
    lemma_opens_with(contents, header);
}

} // verus!
