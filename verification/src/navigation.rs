//! Bookkeeping of the page queue's interface: moving the selection, the
//! short log of status messages, export counters, and the names by which
//! files are shown and sorted.
use vstd::prelude::*;

use std::collections::VecDeque;
use std::path::Path;

use crate::model::{display_name, display_name_for_path};
use crate::paths::{file_name_text, path_display_text, path_file_name, path_text};
use crate::text::{ascii_lower_seq, ascii_lowercase_chars, string_from_chars};
use vstd::arithmetic::div_mod::{lemma_fundamental_div_mod, lemma_fundamental_div_mod_converse};

verus! {

/// The page selected after moving `offset` pages from `selected` in a queue
/// of `len` pages, wrapping around at both ends; no page selected counts as
/// the first. An empty queue keeps its selection.
pub open spec fn relative_selection(selected: Option<usize>, offset: int, len: nat) -> Option<usize> {
    if len == 0 {
        selected
    } else {
        let current = match selected {
            Some(i) => i as int,
            None => 0,
        };
        Some(((current + offset) % (len as int)) as usize)
    }
}

/// Moves the selection `offset` pages through a queue of `len` pages,
/// wrapping around.
pub fn select_relative(selected: Option<usize>, offset: isize, len: usize) -> (next: Option<usize>)
    ensures
        next == relative_selection(selected, offset as int, len as nat),
        len > 0 ==> (next matches Some(i) && i < len),
{
    if len == 0 {
        return selected;
    }
    let current: usize = match selected {
        Some(i) => i,
        None => 0,
    };
    let n: u128 = len as u128;
    let c: u128 = current as u128;
    let wrapped: u128 = if offset >= 0 {
        (c + offset as u128) % n
    } else {
        let back: u128 = (-(offset as i128)) as u128;
        if c >= back {
            (c - back) % n
        } else {
            let d: u128 = back - c;
            let rd: u128 = d % n;
            proof {
                let q = (d as int) / (n as int);
                lemma_fundamental_div_mod(d as int, n as int);
                let r: int = if rd == 0 { 0 } else { n - rd };
                let q2: int = if rd == 0 { -q } else { -q - 1 };
                assert((current as int + offset as int) == q2 * (n as int) + r) by (nonlinear_arith)
                    requires
                        d as int == (n as int) * q + rd as int,
                        current as int + offset as int == -(d as int),
                        r == if rd == 0 { 0 } else { n - rd },
                        q2 == if rd == 0 { -q } else { -q - 1 },
                ;
                lemma_fundamental_div_mod_converse(current as int + offset as int, n as int, q2, r);
            }
            if rd == 0 {
                0
            } else {
                n - rd
            }
        }
    };
    Some(wrapped as usize)
}

/// The most status messages the interface keeps.
pub const MESSAGE_CAPACITY: usize = 4;

/// The newest messages, at most `MESSAGE_CAPACITY`, oldest first.
pub struct MessageLog {
    messages: VecDeque<String>,
}

/// The messages kept after `pushed` arrives at a log holding `kept`: the
/// newest ones, at most `MESSAGE_CAPACITY`.
pub open spec fn kept_after(kept: Seq<Seq<char>>, pushed: Seq<char>) -> Seq<Seq<char>> {
    let all = kept.push(pushed);
    if all.len() > MESSAGE_CAPACITY {
        all.skip(all.len() - MESSAGE_CAPACITY)
    } else {
        all
    }
}

impl MessageLog {
    /// The log never holds more than `MESSAGE_CAPACITY` messages.
    #[verifier::type_invariant]
    closed spec fn within_capacity(&self) -> bool {
        self.messages@.len() <= MESSAGE_CAPACITY
    }

    /// The messages, oldest first.
    pub closed spec fn kept(&self) -> Seq<Seq<char>> {
        self.messages@.map_values(|m: String| m@)
    }

    /// An empty log.
    pub fn new() -> (log: MessageLog)
        ensures
            log.kept().len() == 0,
    {
        let log = MessageLog { messages: VecDeque::new() };
        proof {
            assert(log.kept() =~= Seq::empty());
        }
        log
    }

    /// Adds a message, dropping the oldest ones beyond the capacity.
    pub fn push(&mut self, message: String)
        ensures
            final(self).kept() == kept_after(old(self).kept(), message@),
            final(self).kept().len() <= MESSAGE_CAPACITY,
    {
        proof {
            use_type_invariant(&*self);
        }
        let ghost old_kept = old(self).kept();
        let ghost all = old_kept.push(message@);
        let ghost dropped: int = 0;
        let mut messages: VecDeque<String> = VecDeque::new();
        std::mem::swap(&mut messages, &mut self.messages);
        while messages.len() >= MESSAGE_CAPACITY
            invariant
                0 <= dropped <= old_kept.len(),
                messages@.map_values(|m: String| m@) == old_kept.skip(dropped),
                dropped > 0 ==> old_kept.len() - dropped == MESSAGE_CAPACITY - 1,
                old_kept.len() <= MESSAGE_CAPACITY,
            decreases messages@.len(),
        {
            let ghost before = messages@.map_values(|m: String| m@);
            let _oldest = messages.pop_front();
            proof {
                assert(messages@.map_values(|m: String| m@) =~= before.skip(1));
                assert(old_kept.skip(dropped).skip(1) =~= old_kept.skip(dropped + 1));
                dropped = dropped + 1;
            }
        }
        let ghost before = messages@.map_values(|m: String| m@);
        messages.push_back(message);
        proof {
            assert(messages@.map_values(|m: String| m@) =~= before.push(message@));
            if all.len() > MESSAGE_CAPACITY {
                assert(messages@.map_values(|m: String| m@) =~= all.skip(all.len() - MESSAGE_CAPACITY));
            } else {
                assert(dropped == 0);
                assert(old_kept.skip(0) =~= old_kept);
                assert(messages@.map_values(|m: String| m@) =~= all);
            }
        }
        self.messages = messages;
    }

    /// The newest message, if any.
    pub fn latest(&self) -> (latest: Option<String>)
        ensures
            self.kept().len() == 0 ==> latest is None,
            self.kept().len() > 0 ==> (latest matches Some(m) && m@ == self.kept().last()),
    {
        let n = self.messages.len();
        if n == 0 {
            None
        } else {
            let message = self.messages[n - 1].clone();
            Some(message)
        }
    }
}

/// Counts of the current export batch.
#[derive(Debug, Clone, Copy, PartialEq, Eq, Structural)]
pub struct ExportTally {
    pub total: usize,
    pub completed: usize,
    pub failed: usize,
}

/// The count after one more, saturating at the largest value.
pub open spec fn count_up(n: usize) -> usize {
    if n == usize::MAX {
        n
    } else {
        (n + 1) as usize
    }
}

impl ExportTally {
    /// A tally with nothing counted.
    pub fn new() -> (tally: ExportTally)
        ensures
            tally == (ExportTally { total: 0, completed: 0, failed: 0 }),
    {
        ExportTally { total: 0, completed: 0, failed: 0 }
    }

    /// Starts a batch: the counts restart unless exports are still running.
    pub fn begin_batch(&mut self, exports_running: bool)
        ensures
            exports_running ==> *final(self) == *old(self),
            !exports_running ==> *final(self) == (ExportTally { total: 0, completed: 0, failed: 0 }),
    {
        if !exports_running {
            *self = ExportTally { total: 0, completed: 0, failed: 0 };
        }
    }

    /// Counts a queued export.
    pub fn queued(&mut self)
        ensures
            *final(self) == (ExportTally { total: count_up(old(self).total), ..*old(self) }),
    {
        self.total = self.total.saturating_add(1);
    }

    /// Counts a completed export.
    pub fn completed(&mut self)
        ensures
            *final(self) == (ExportTally { completed: count_up(old(self).completed), ..*old(self) }),
    {
        self.completed = self.completed.saturating_add(1);
    }

    /// Counts a failed export.
    pub fn failed(&mut self)
        ensures
            *final(self) == (ExportTally { failed: count_up(old(self).failed), ..*old(self) }),
    {
        self.failed = self.failed.saturating_add(1);
    }
}

/// The name a message shows for a written file, given its final path
/// component: that component, or `output` when there is none.
pub open spec fn message_name(file_name: Option<Seq<char>>) -> Seq<char> {
    match file_name {
        Some(name) => name,
        None => "output"@,
    }
}

/// The name a message shows for a written file whose final component (as
/// UTF-8 text) is `file_name`.
pub fn message_file_name(file_name: Option<String>) -> (name: String)
    ensures
        name@ == message_name(
            match file_name {
                Some(n) => Some(n@),
                None => None,
            },
        ),
{
    match file_name {
        Some(name) => name,
        None => "output".to_owned(),
    }
}

/// The name a message shows for a written file: its final component, or
/// `output` when it has no UTF-8 final component.
pub fn file_name_for_message(path: &Path) -> (name: String)
    ensures
        name@ == message_name(path_file_name(path)),
        name@.len() > 0,
        !name@.contains('/'),
{
    proof {
        reveal_strlit("output");
    }
    message_file_name(file_name_text(path))
}

/// The sort key of a file whose final component (as UTF-8 text) is
/// `file_name` and whose whole path reads `path_text`: the final component,
/// or else the whole path, in ASCII lower case.
pub open spec fn sort_key_text(file_name: Option<Seq<char>>, path_text: Seq<char>) -> Seq<char> {
    ascii_lower_seq(
        match file_name {
            Some(name) => name,
            None => path_text,
        },
    )
}

/// The sort key of a file, given its final component as UTF-8 text and its
/// whole path as text.
pub fn sort_key(file_name: Option<String>, path_text: String) -> (key: String)
    ensures
        key@ == sort_key_text(
            match file_name {
                Some(n) => Some(n@),
                None => None,
            },
            path_text@,
        ),
        forall|i: int| 0 <= i < key@.len() ==> !('A' <= #[trigger] key@[i] && key@[i] <= 'Z'),
{
    let text = match file_name {
        Some(name) => name,
        None => path_text,
    };
    let lower = ascii_lowercase_chars(text.as_str());
    let key = string_from_chars(lower.as_slice());
    proof {
        assert forall|i: int| 0 <= i < key@.len() implies !('A' <= #[trigger] key@[i] && key@[i] <= 'Z') by {
            assert(key@[i] == ascii_lower_seq(text@)[i]);
        }
    }
    key
}

/// The key by which files are sorted when a folder is opened: the final
/// component, or else the whole path, in ASCII lower case.
pub fn file_name_for_sort(path: &Path) -> (key: String)
    ensures
        key@ == sort_key_text(path_file_name(path), path_text(path)),
        forall|i: int| 0 <= i < key@.len() ==> !('A' <= #[trigger] key@[i] && key@[i] <= 'Z'),
{
    sort_key(file_name_text(path), path_display_text(path))
}

/// The order in which the command line processes the files of a folder:
/// by display name in ASCII lower case, then by the display name itself.
/// Comparing these pairs compares the first texts and, when they are equal,
/// the second.
pub fn display_order_key(path: &Path) -> (key: (String, String))
    ensures
        key.0@ == ascii_lower_seq(display_name(path_file_name(path))),
        key.1@ == display_name(path_file_name(path)),
{
    let name = display_name_for_path(path);
    let lower = ascii_lowercase_chars(name.as_str());
    let folded = string_from_chars(lower.as_slice());
    (folded, name)
}

} // verus!
