//! The permission state of an entry as text.

use vstd::prelude::*;
use crate::text::{octal, push_octal, push_repeat, repeat, zero_padded};

verus! {

/// What a platform reports of an entry's permissions.
#[derive(Clone, Copy, Debug, PartialEq, Eq, Structural)]
pub enum Permissions {
    /// POSIX-style mode bits.
    Bits(u32),
    /// A single read-only flag, where the platform has no mode bits.
    ReadOnly(bool),
}

/// The text of `p`: the mode bits in octal with at least three digits, or
/// "readonly" / "writable".
pub open spec fn mode_text(p: Permissions) -> Seq<char> {
    match p {
        Permissions::Bits(m) => zero_padded(octal(m as nat), 3),
        Permissions::ReadOnly(ro) => if ro { "readonly"@ } else { "writable"@ },
    }
}

/// Renders permissions as text.
pub fn format_mode(p: Permissions) -> (r: String)
    ensures
        r@ == mode_text(p),
{
    match p {
        Permissions::Bits(m) => {
            let mut digits = String::new();
            push_octal(&mut digits, m as u64);
            let mut s = String::new();
            let len = digits.unicode_len();
            if len < 3 {
                proof { reveal_strlit("0"); }
                push_repeat(&mut s, "0", 3 - len);
            }
            s.append(digits.as_str());
            assert(s@ =~= zero_padded(octal(m as nat), 3));
            s
        },
        Permissions::ReadOnly(ro) => {
            if ro {
                String::from_str("readonly")
            } else {
                String::from_str("writable")
            }
        },
    }
}

} // verus!
