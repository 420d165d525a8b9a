//! Structural validation of an offered session description.
//!
//! A session description is a text of lines separated by line feeds. Each line
//! is a field: one lower-case letter that names the field, an equals sign, and
//! the field's value. The protocol version field `v=` comes first.

use vstd::prelude::*;
use vstd::std_specs::iter::IteratorSpec;

verus! {

/// Whether `c` can name a field: a lower-case ASCII letter.
pub open spec fn is_field_name(c: char) -> bool {
    'a' as u32 <= c as u32 && c as u32 <= 'z' as u32
}

/// Whether a line begins at position `i` of `text`.
pub open spec fn line_starts_at(text: Seq<char>, i: int) -> bool {
    0 <= i < text.len() && (i == 0 || text[i - 1] == '\n')
}

/// Whether position `i` of `text` holds a field's name followed by `=`.
pub open spec fn field_at(text: Seq<char>, i: int) -> bool {
    0 <= i && i + 1 < text.len() && is_field_name(text[i]) && text[i + 1] == '='
}

/// The offers that the negotiation accepts: a text that is not empty, whose
/// first field is the version field, and whose every line is a field.
pub open spec fn well_formed_offer(text: Seq<char>) -> bool {
    &&& text.len() > 0
    &&& text[0] == 'v'
    &&& forall|i: int| line_starts_at(text, i) ==> #[trigger] field_at(text, i)
}

/// Where the scan of a description stands.
#[derive(Clone, Copy, PartialEq, Eq, Structural)]
enum Scan {
    /// The next character begins a line.
    LineStart,
    /// The line's field name was read; `=` is due.
    AfterName,
    /// Inside a field's value.
    InValue,
}

fn is_lower_ascii(c: char) -> (b: bool)
    ensures
        b == is_field_name(c),
{
    'a' <= c && c <= 'z'
}

/// Decides whether `sdp` is a well-formed offer, in one pass over its
/// characters.
pub fn is_valid_offer(sdp: &str) -> (ok: bool)
    ensures
        ok == well_formed_offer(sdp@),
{
    let mut chars = sdp.chars();
    let ghost text = sdp@;
    let ghost mut pos: int = 0;
    let mut scan = Scan::LineStart;
    let mut first = true;
    loop
        invariant
            text == sdp@,
            0 <= pos <= text.len(),
            chars.remaining() == text.subrange(pos, text.len() as int),
            first <==> pos == 0,
            pos > 0 ==> text[0] == 'v',
            scan == Scan::LineStart ==> pos == 0 || text[pos - 1] == '\n',
            scan == Scan::AfterName ==> pos >= 1 && line_starts_at(text, pos - 1) && is_field_name(
                text[pos - 1],
            ),
            scan == Scan::InValue ==> pos >= 1 && text[pos - 1] != '\n',
            forall|i: int|
                line_starts_at(text, i) && i < pos && !(scan == Scan::AfterName && i == pos - 1)
                    ==> #[trigger] field_at(text, i),
        decreases text.len() - pos,
    {
        let next = chars.next();
        match next {
            None => {
                proof {
                    assert(pos == text.len());
                    if scan == Scan::AfterName {
                        assert(line_starts_at(text, pos - 1));
                        assert(!field_at(text, pos - 1));
                    }
                }
                return !first && scan != Scan::AfterName;
            },
            Some(c) => {
                assert(c == text[pos]);
                match scan {
                    Scan::LineStart => {
                        if (first && c != 'v') || !is_lower_ascii(c) {
                            proof {
                                assert(line_starts_at(text, pos));
                                assert(!field_at(text, pos) || text[0] != 'v');
                            }
                            return false;
                        }
                        scan = Scan::AfterName;
                    },
                    Scan::AfterName => {
                        if c != '=' {
                            proof {
                                assert(line_starts_at(text, pos - 1));
                                assert(!field_at(text, pos - 1));
                            }
                            return false;
                        }
                        assert(field_at(text, pos - 1));
                        scan = Scan::InValue;
                    },
                    Scan::InValue => {
                        if c == '\n' {
                            scan = Scan::LineStart;
                        }
                    },
                }
                first = false;
                proof {
                    pos = pos + 1;
                }
            },
        }
    }
}

} // verus!
