//! The descriptor of one candidate file, and its aligned one-line rendering.

use vstd::prelude::*;
use vstd::string::StringExecFns;
use crate::size_format::size_chars;
use crate::text::pad_chars;

verus! {

/// Everything the list shows about one file: where it is, what it is
/// called, how big it is, when it was created (epoch seconds and a local
/// `HH:MM` string), and the column widths the whole list agreed on.
#[derive(Debug)]
pub struct FileInfo {
    pub path: String,
    pub name: String,
    pub size: u64,
    pub created_time: String,
    pub created_timestamp: u64,
    pub time_width: usize,
    pub size_width: usize,
}

/// The aligned line for one descriptor: the time and the rendered size,
/// each left-padded to its column width, then the name.
pub open spec fn render_chars(f: FileInfo) -> Seq<char> {
    pad_chars(f.created_time@, f.time_width as int) + seq![' ']
        + pad_chars(size_chars(f.size), f.size_width as int) + seq![' '] + f.name@
}

impl FileInfo {
    /// Renders this descriptor as one aligned display line.
    pub fn render_line(&self) -> (r: String)
        ensures
            r@ == render_chars(*self),
    {
        proof {
            reveal_strlit(" ");
        }
        let mut out = crate::text::pad_to(self.created_time.as_str(), self.time_width);
        out.append(" ");
        let size_text = crate::size_format::format_size(self.size);
        let padded_size = crate::text::pad_to(size_text.as_str(), self.size_width);
        out.append(padded_size.as_str());
        out.append(" ");
        out.append(self.name.as_str());
        proof {
            assert(" "@ =~= seq![' ']);
            assert(out@ =~= render_chars(*self));
        }
        out
    }
}

} // verus!
