//! The separators used in a table for formatting.

use vstd::prelude::*;

use super::Table;

verus! {

/// Defines the separators used in a table for formatting.
#[derive(Debug)]
pub struct Separator {
    /// The string used for horizontal separation (column spacing)
    pub horizontal: String,
    /// The string used for vertical separation (row dividers)
    pub vertical: String,
}

impl Default for Separator {
    /// Four spaces between columns, a dash for row dividers.
    fn default() -> (r: Separator)
        ensures
            r.horizontal@ == "    "@,
            r.vertical@ == "-"@,
    {
        Separator { horizontal: "    ".to_owned(), vertical: "-".to_owned() }
    }
}

impl Table {
    /// Sets a custom horizontal separator (column spacing).
    pub fn with_horizontal_separator(&mut self, separator: &str)
        ensures
            final(self).separator.horizontal@ == separator@,
            final(self).separator.vertical == old(self).separator.vertical,
            final(self).header == old(self).header,
            final(self).rows == old(self).rows,
            final(self).footer == old(self).footer,
            final(self).columns == old(self).columns,
            final(self).alignments == old(self).alignments,
    {
        self.separator.horizontal = separator.to_owned();
    }

    /// Sets a custom vertical separator (row dividers).
    pub fn with_vertical_separator(&mut self, separator: &str)
        ensures
            final(self).separator.vertical@ == separator@,
            final(self).separator.horizontal == old(self).separator.horizontal,
            final(self).header == old(self).header,
            final(self).rows == old(self).rows,
            final(self).footer == old(self).footer,
            final(self).columns == old(self).columns,
            final(self).alignments == old(self).alignments,
    {
        self.separator.vertical = separator.to_owned();
    }
}

} // verus!
