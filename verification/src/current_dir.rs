//! A self-contained snapshot of one directory's listing and selection, and
//! the status-line truncation rule.
use vstd::prelude::*;

use crate::node::TreeNode;
use crate::session::path_index_from;
use crate::session::selection_ok;
use crate::text::chars_of;
use crate::text::string_from_chars;
use crate::text::subrange_chars;

verus! {

/// One directory's listing with its selection state.
#[derive(Debug, Clone)]
pub struct CurrentDirectoryState {
    pub current_path: String,
    pub parent_path: Option<String>,
    pub entries: Vec<TreeNode>,
    pub selected_index: usize,
    pub last_child_path: Option<String>,
    pub status_message: String,
}

impl CurrentDirectoryState {
    /// A fresh snapshot for a path with its entries; the first entry is
    /// selected.
    pub fn with_entries(
        current_path: String,
        parent_path: Option<String>,
        entries: Vec<TreeNode>,
    ) -> (r: Self)
        ensures
            r.current_path@ == current_path@,
            r.parent_path == parent_path,
            r.entries@ == entries@,
            r.selected_index == 0,
            r.last_child_path is None,
            r.status_message@ == Seq::<char>::empty(),
    {
        CurrentDirectoryState {
            current_path,
            parent_path,
            entries,
            selected_index: 0,
            last_child_path: None,
            status_message: String::new(),
        }
    }

    /// The selected entry, while one exists.
    pub fn selected_entry(&self) -> (r: Option<&TreeNode>)
        ensures
            match r {
                Some(n) => self.selected_index < self.entries@.len() && *n
                    == self.entries@[self.selected_index as int],
                None => self.selected_index >= self.entries@.len(),
            },
    {
        if self.selected_index < self.entries.len() {
            Some(&self.entries[self.selected_index])
        } else {
            None
        }
    }

    /// Pull the selection back inside the entry list; an empty list selects
    /// index zero.
    pub fn revalidate_selection(&mut self)
        ensures
            selection_ok(final(self).selected_index as int, final(self).entries@.len() as int),
            final(self).selected_index == (if old(self).entries@.len() == 0 {
                0int
            } else if old(self).selected_index as int >= old(self).entries@.len() {
                old(self).entries@.len() - 1
            } else {
                old(self).selected_index as int
            }),
            *final(self) == (CurrentDirectoryState {
                selected_index: final(self).selected_index,
                ..*old(self)
            }),
    {
        if self.entries.len() == 0 {
            self.selected_index = 0;
            return ;
        }
        if self.selected_index >= self.entries.len() {
            self.selected_index = self.entries.len() - 1;
        }
    }

    /// Select the entry whose path is `preferred` if the list holds one,
    /// otherwise the first entry; an empty list selects index zero.
    pub fn restore_or_default_selection(&mut self, preferred: Option<&String>)
        ensures
            selection_ok(final(self).selected_index as int, final(self).entries@.len() as int),
            final(self).selected_index as int == (if old(self).entries@.len() == 0 {
                0int
            } else {
                match preferred {
                    Some(p) => match path_index_from(old(self).entries@, p@, 0) {
                        Some(i) => i,
                        None => 0int,
                    },
                    None => 0int,
                }
            }),
            *final(self) == (CurrentDirectoryState {
                selected_index: final(self).selected_index,
                ..*old(self)
            }),
    {
        if self.entries.len() == 0 {
            self.selected_index = 0;
            return ;
        }
        if let Some(path) = preferred {
            let n = self.entries.len();
            let mut i: usize = 0;
            while i < n
                invariant
                    i <= n,
                    n == self.entries@.len(),
                    *self == *old(self),
                    preferred == Some(path),
                    path_index_from(self.entries@, path@, 0) == path_index_from(
                        self.entries@,
                        path@,
                        i as int,
                    ),
                decreases n - i,
            {
                if self.entries[i].path.eq(path) {
                    proof {
                        assert(path_index_from(self.entries@, path@, i as int) == Some(i as int));
                    }
                    self.selected_index = i;
                    return ;
                }
                proof {
                    assert(path_index_from(self.entries@, path@, i as int) == path_index_from(
                        self.entries@,
                        path@,
                        i + 1,
                    ));
                }
                i = i + 1;
            }
        }
        self.selected_index = 0;
    }
}

/// Status text truncated to `max_chars` characters: short text stays whole;
/// longer text keeps its first characters and ends with an ellipsis; a width
/// of one leaves only the ellipsis; a width of zero leaves nothing.
pub open spec fn spec_truncate_status(s: Seq<char>, max_chars: int) -> Seq<char> {
    if max_chars <= 0 {
        Seq::empty()
    } else if s.len() <= max_chars {
        s
    } else if max_chars == 1 {
        seq!['…']
    } else {
        s.take(max_chars - 1).push('…')
    }
}

/// Truncate status text to at most `max_chars` characters, marking the cut
/// with an ellipsis.
pub fn truncate_for_status(input: &str, max_chars: usize) -> (r: String)
    ensures
        r@ == spec_truncate_status(input@, max_chars as int),
{
    let cs = chars_of(input);
    if max_chars == 0 {
        proof {
            assert(Seq::<char>::empty() =~= spec_truncate_status(input@, 0));
        }
        return String::new();
    }
    if cs.len() <= max_chars {
        return string_from_chars(&cs);
    }
    if max_chars == 1 {
        let mut one: Vec<char> = Vec::new();
        one.push('…');
        proof {
            assert(one@ =~= seq!['…']);
        }
        return string_from_chars(&one);
    }
    let mut head = subrange_chars(&cs, 0, max_chars - 1);
    head.push('…');
    proof {
        assert(head@ =~= input@.take(max_chars - 1).push('…'));
    }
    string_from_chars(&head)
}

} // verus!
