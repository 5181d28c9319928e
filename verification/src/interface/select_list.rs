//! Choosing one entry of a list with the keys up, down and enter.

use vstd::prelude::*;

verus! {

/// A key, as far as the list tells keys apart.
#[derive(Clone, Copy, Debug, PartialEq, Eq, Structural)]
pub enum ListKey {
    Enter,
    Up,
    Down,
    Other,
}

/// A list on the screen: how many entries it has and which one is marked.
#[derive(Debug)]
pub struct SelectFromList {
    size: usize,
    selected: usize,
}

/// The entry that is marked after `key`, in a list of `size` entries of
/// which `selected` was marked: up and down move the mark by one and stop
/// at the ends of the list.
pub open spec fn marked_after(size: usize, selected: usize, key: ListKey) -> usize {
    match key {
        ListKey::Up => if selected > 0 {
            (selected - 1) as usize
        } else {
            0
        },
        ListKey::Down => if selected + 1 < size {
            (selected + 1) as usize
        } else {
            selected
        },
        _ => selected,
    }
}

/// The entry that the keys `keys` choose in a list of `size` entries of
/// which `selected` is marked: the one that is marked when enter is
/// pressed first. Keys after that are not read; without enter nothing is
/// chosen.
pub open spec fn chosen_from(size: usize, selected: usize, keys: Seq<ListKey>) -> Option<usize>
    decreases keys.len(),
{
    if keys.len() == 0 {
        None
    } else if keys[0] == ListKey::Enter {
        Some(selected)
    } else {
        chosen_from(size, marked_after(size, selected, keys[0]), keys.skip(1))
    }
}

impl SelectFromList {
    /// The number of entries.
    pub closed spec fn size(&self) -> usize {
        self.size
    }

    /// The entry that is marked.
    pub closed spec fn marked(&self) -> usize {
        self.selected
    }

    /// A list of `size` entries with the first one marked.
    pub fn init(size: usize) -> (r: SelectFromList)
        ensures
            r.size() == size,
            r.marked() == 0,
    {
        SelectFromList { size, selected: 0 }
    }

    /// The entry that is marked.
    pub fn selected(&self) -> (r: usize)
        ensures
            r == self.marked(),
    {
        self.selected
    }

    /// Takes a key, if one was pressed: up and down move the mark. Tells
    /// whether the key was enter, which ends the choice.
    pub fn handle_events(&mut self, key: Option<ListKey>) -> (quit: bool)
        ensures
            final(self).size() == old(self).size(),
            quit == (key == Some(ListKey::Enter)),
            final(self).marked() == match key {
                Some(k) => marked_after(old(self).size(), old(self).marked(), k),
                None => old(self).marked(),
            },
    {
        match key {
            Some(ListKey::Enter) => true,
            Some(ListKey::Up) => {
                if self.selected > 0 {
                    self.selected = self.selected - 1;
                }
                false
            },
            Some(ListKey::Down) => {
                if self.selected < usize::MAX && self.selected + 1 < self.size {
                    self.selected = self.selected + 1;
                }
                false
            },
            _ => false,
        }
    }

    /// Takes the keys `keys` up to the first enter. Tells whether enter was
    /// among them.
    pub fn exec(&mut self, keys: &[ListKey]) -> (entered: bool)
        ensures
            final(self).size() == old(self).size(),
            match chosen_from(old(self).size(), old(self).marked(), keys@) {
                Some(choice) => entered && final(self).marked() == choice,
                None => !entered,
            },
    {
        let mut i: usize = 0;
        proof {
            assert(keys@.skip(0) =~= keys@);
        }
        while i < keys.len()
            invariant
                i <= keys@.len(),
                self.size() == old(self).size(),
                chosen_from(self.size(), self.marked(), keys@.skip(i as int)) == chosen_from(
                    old(self).size(),
                    old(self).marked(),
                    keys@,
                ),
            decreases keys.len() - i,
        {
            proof {
                assert(keys@.skip(i as int)[0] == keys@[i as int]);
                assert(keys@.skip(i as int).skip(1) =~= keys@.skip(i + 1));
            }
            if self.handle_events(Some(keys[i])) {
                return true;
            }
            i = i + 1;
        }
        false
    }
}

/// The entry that the keys `keys` choose in a list of `size` entries that
/// starts with its first entry marked, and nothing where enter is not among
/// the keys.
pub fn select_from_list(size: usize, keys: &[ListKey]) -> (r: Option<usize>)
    ensures
        r == chosen_from(size, 0, keys@),
{
    let mut widget = SelectFromList::init(size);
    if widget.exec(keys) {
        Some(widget.selected())
    } else {
        None
    }
}

} // verus!
