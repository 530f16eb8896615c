//! An indented, YAML-like outline printer. Objects print `name: value` lines
//! and open nested objects and arrays two spaces deeper; arrays print `- `
//! items. The text goes to a buffer that the caller owns.

use vstd::prelude::*;
use crate::text::{append_char, append_spaces, spaces};

verus! {

/// The start of a line at `depth`: its indentation, unless the line
/// continues an array item marker already written.
pub open spec fn line_start(newline: bool, depth: usize) -> Seq<char> {
    if newline {
        spaces(depth as nat)
    } else {
        Seq::empty()
    }
}

/// An object of the outline: named values and nested containers.
#[derive(Debug, Clone, Copy)]
pub struct PrintObject {
    pub newline: bool,
    pub depth: usize,
}

/// An array of the outline: `- ` items.
#[derive(Debug, Clone, Copy)]
pub struct PrintArray {
    pub newline: bool,
    pub depth: usize,
}

impl PrintObject {
    /// A top-level object whose lines are indented by `depth` spaces.
    pub fn new(depth: usize) -> (r: Self)
        ensures
            r.newline,
            r.depth == depth,
    {
        PrintObject { newline: true, depth }
    }

    /// Writes the line `name: value`.
    pub fn value(&mut self, buffer: &mut String, name: &str, value: &str)
        ensures
            final(buffer)@ == old(buffer)@ + line_start(old(self).newline, old(self).depth) + name@
                + ": "@ + value@ + seq!['\n'],
            final(self).newline,
            final(self).depth == old(self).depth,
    {
        if self.newline {
            append_spaces(buffer, self.depth);
        }
        buffer.append(name);
        buffer.append(": ");
        buffer.append(value);
        append_char(buffer, '\n');
        self.newline = true;
        proof {
            reveal_strlit(": ");
            assert(buffer@ =~= old(buffer)@ + line_start(old(self).newline, old(self).depth)
                + name@ + ": "@ + value@ + seq!['\n']);
        }
    }

    /// Writes the line `name:` and opens an object under it.
    pub fn object(&self, buffer: &mut String, name: &str) -> (r: PrintObject)
        requires
            self.depth + 2 <= usize::MAX,
        ensures
            final(buffer)@ == old(buffer)@ + spaces(self.depth as nat) + name@ + seq![':', '\n'],
            r.newline,
            r.depth == self.depth + 2,
    {
        append_spaces(buffer, self.depth);
        buffer.append(name);
        append_char(buffer, ':');
        append_char(buffer, '\n');
        proof {
            assert(buffer@ =~= old(buffer)@ + spaces(self.depth as nat) + name@ + seq![':', '\n']);
        }
        PrintObject { newline: true, depth: self.depth + 2 }
    }

    /// Writes the line `name:` and opens an array under it.
    pub fn array(&self, buffer: &mut String, name: &str) -> (r: PrintArray)
        requires
            self.depth + 2 <= usize::MAX,
        ensures
            final(buffer)@ == old(buffer)@ + spaces(self.depth as nat) + name@ + seq![':', '\n'],
            r.newline,
            r.depth == self.depth + 2,
    {
        append_spaces(buffer, self.depth);
        buffer.append(name);
        append_char(buffer, ':');
        append_char(buffer, '\n');
        proof {
            assert(buffer@ =~= old(buffer)@ + spaces(self.depth as nat) + name@ + seq![':', '\n']);
        }
        PrintArray { newline: true, depth: self.depth + 2 }
    }
}

impl PrintArray {
    /// Writes the item `- value`.
    pub fn value(&mut self, buffer: &mut String, value: &str)
        ensures
            final(buffer)@ == old(buffer)@ + line_start(old(self).newline, old(self).depth)
                + seq!['-', ' '] + value@ + seq!['\n'],
            final(self).newline,
            final(self).depth == old(self).depth,
    {
        if self.newline {
            append_spaces(buffer, self.depth);
        }
        append_char(buffer, '-');
        append_char(buffer, ' ');
        buffer.append(value);
        append_char(buffer, '\n');
        self.newline = true;
        proof {
            assert(buffer@ =~= old(buffer)@ + line_start(old(self).newline, old(self).depth)
                + seq!['-', ' '] + value@ + seq!['\n']);
        }
    }

    /// Writes an item marker `- ` and opens an object whose first line
    /// continues it.
    pub fn object(&self, buffer: &mut String) -> (r: PrintObject)
        requires
            self.depth + 2 <= usize::MAX,
        ensures
            final(buffer)@ == old(buffer)@ + spaces(self.depth as nat) + seq!['-', ' '],
            !r.newline,
            r.depth == self.depth + 2,
    {
        append_spaces(buffer, self.depth);
        append_char(buffer, '-');
        append_char(buffer, ' ');
        proof {
            assert(buffer@ =~= old(buffer)@ + spaces(self.depth as nat) + seq!['-', ' ']);
        }
        PrintObject { newline: false, depth: self.depth + 2 }
    }

    /// Writes an item marker `- ` and opens an array whose first item
    /// continues it.
    pub fn array(&self, buffer: &mut String) -> (r: PrintArray)
        requires
            self.depth + 2 <= usize::MAX,
        ensures
            final(buffer)@ == old(buffer)@ + spaces(self.depth as nat) + seq!['-', ' '],
            !r.newline,
            r.depth == self.depth + 2,
    {
        append_spaces(buffer, self.depth);
        append_char(buffer, '-');
        append_char(buffer, ' ');
        proof {
            assert(buffer@ =~= old(buffer)@ + spaces(self.depth as nat) + seq!['-', ' ']);
        }
        PrintArray { newline: false, depth: self.depth + 2 }
    }
}

} // verus!
