//! Which save files are being written in the background.

use vstd::hash_map::StringHashMap;
use vstd::prelude::*;

verus! {

/// The newest save of each file that is not written yet. Each save has a ticket, by which whoever
/// comes next can wait for it.
pub struct SaveTasks {
    pub tasks: StringHashMap<u64>,
    pub next_ticket: u64,
}

/// A place in the queue: the ticket of a save, and that of the save it has to wait for.
#[derive(Clone, Copy, Debug, PartialEq, Eq, Structural)]
pub struct SavePlace {
    pub ticket: u64,
    pub previous: Option<u64>,
}

/// The newest save of a file.
pub open spec fn newest(tasks: Map<Seq<char>, u64>, path_key: Seq<char>) -> Option<u64> {
    if tasks.contains_key(path_key) {
        Some(tasks[path_key])
    } else {
        None
    }
}

/// The newest saves, after one of them was written: it leaves, unless a newer one took its place.
pub open spec fn written(
    tasks: Map<Seq<char>, u64>,
    path_key: Seq<char>,
    ticket: u64,
) -> Map<Seq<char>, u64> {
    if newest(tasks, path_key) == Some(ticket) {
        tasks.remove(path_key)
    } else {
        tasks
    }
}

impl SaveTasks {
    /// No saves.
    pub fn new() -> (tasks: Self)
        ensures
            tasks.tasks@ == Map::<Seq<char>, u64>::empty(),
            tasks.next_ticket == 0,
    {
        SaveTasks { tasks: StringHashMap::new(), next_ticket: 0 }
    }

    /// Takes a save in.
    pub fn queue(&mut self, path_key: String) -> (place: SavePlace)
        requires
            old(self).next_ticket < u64::MAX,
        ensures
            place.ticket == old(self).next_ticket,
            place.previous == newest(old(self).tasks@, path_key@),
            final(self).tasks@ == old(self).tasks@.insert(path_key@, place.ticket),
            final(self).next_ticket == old(self).next_ticket + 1,
    {
        let previous = match self.tasks.get(path_key.as_str()) {
            Some(ticket) => Some(*ticket),
            None => None,
        };
        let ticket: u64 = self.next_ticket;
        self.tasks.insert(path_key, ticket);
        self.next_ticket = ticket + 1;
        SavePlace { ticket, previous }
    }

    /// Lets a save go that was written.
    pub fn finish(&mut self, path_key: &str, ticket: u64)
        ensures
            final(self).tasks@ == written(old(self).tasks@, path_key@, ticket),
            final(self).next_ticket == old(self).next_ticket,
    {
        let current = match self.tasks.get(path_key) {
            Some(current) => *current == ticket,
            None => false,
        };
        if current {
            self.tasks.remove(path_key);
        }
    }
}

/// A save in the story of all saves: its file, and the save it has to wait for.
pub ghost struct SaveEntry {
    pub path_key: Seq<char>,
    pub previous: Option<u64>,
}

/// The story of all saves up to now.
pub ghost struct SaveStory {
    pub tasks: Map<Seq<char>, u64>,
    pub next_ticket: u64,
    pub saves: Map<u64, SaveEntry>,
    pub written: Set<u64>,
}

impl SaveStory {
    /// Before the first save.
    pub open spec fn start() -> SaveStory {
        SaveStory {
            tasks: Map::empty(),
            next_ticket: 0,
            saves: Map::empty(),
            written: Set::empty(),
        }
    }

    /// Whether a save was taken in and is not written yet.
    pub open spec fn open(self, ticket: u64) -> bool {
        self.saves.contains_key(ticket) && !self.written.contains(ticket)
    }

    /// Whether a save may run: it is open, and what it waits for was written.
    pub open spec fn may_run(self, ticket: u64) -> bool {
        self.open(ticket) && match self.saves[ticket].previous {
            Some(previous) => self.written.contains(previous),
            None => true,
        }
    }

    /// The story after one more save was taken in.
    pub open spec fn queued(self, path_key: Seq<char>) -> SaveStory {
        SaveStory {
            tasks: self.tasks.insert(path_key, self.next_ticket),
            next_ticket: (self.next_ticket + 1) as u64,
            saves: self.saves.insert(
                self.next_ticket,
                SaveEntry { path_key, previous: newest(self.tasks, path_key) },
            ),
            written: self.written,
        }
    }

    /// The story after a save was written.
    pub open spec fn finished(self, ticket: u64) -> SaveStory {
        SaveStory {
            tasks: written(self.tasks, self.saves[ticket].path_key, ticket),
            next_ticket: self.next_ticket,
            saves: self.saves,
            written: self.written.insert(ticket),
        }
    }

    /// What holds at every point of the story: tickets are given out in order, the newest save of
    /// a file with open saves is open, and of two open saves of one file the later waits for an
    /// open one that is no earlier than the other.
    pub open spec fn orderly(self) -> bool {
        &&& forall|t: u64| #[trigger] self.saves.contains_key(t) ==> t < self.next_ticket
        &&& forall|t: u64| #[trigger] self.written.contains(t) ==> t < self.next_ticket
        &&& forall|t: u64|
            #[trigger] self.open(t) ==> {
                let key = self.saves[t].path_key;
                &&& self.tasks.contains_key(key)
                &&& self.tasks[key] >= t
                &&& self.open(self.tasks[key])
                &&& self.saves[self.tasks[key]].path_key == key
            }
        &&& forall|a: u64, b: u64|
            #![trigger self.open(a), self.open(b)]
            self.open(a) && self.open(b) && a < b && self.saves[a].path_key
                == self.saves[b].path_key ==> {
                &&& self.saves[b].previous matches Some(p)
                &&& a <= p < b
                &&& self.open(p)
                &&& self.saves[p].path_key == self.saves[b].path_key
            }
    }
}

/// The story is orderly before the first save.
pub proof fn law_story_starts_orderly()
    ensures
        SaveStory::start().orderly(),
{
}

/// Taking a save in keeps the story orderly.
pub proof fn law_queueing_keeps_order(story: SaveStory, path_key: Seq<char>)
    requires
        story.orderly(),
        story.next_ticket < u64::MAX,
    ensures
        story.queued(path_key).orderly(),
{
    let after = story.queued(path_key);
    let new = story.next_ticket;
    assert forall|t: u64| #[trigger] after.open(t) && t != new implies story.open(t) by {}
    assert forall|t: u64| story.open(t) implies #[trigger] after.open(t) by {}
    assert forall|t: u64| #[trigger] after.open(t) implies {
        let key = after.saves[t].path_key;
        &&& after.tasks.contains_key(key)
        &&& after.tasks[key] >= t
        &&& after.open(after.tasks[key])
        &&& after.saves[after.tasks[key]].path_key == key
    } by {
        if t != new {
            assert(story.open(t));
        }
    }
    assert forall|a: u64, b: u64|
        #![trigger after.open(a), after.open(b)]
        after.open(a) && after.open(b) && a < b && after.saves[a].path_key
            == after.saves[b].path_key implies {
        &&& after.saves[b].previous matches Some(p)
        &&& a <= p < b
        &&& after.open(p)
        &&& after.saves[p].path_key == after.saves[b].path_key
    } by {
        assert(story.open(a));
        if b == new {
            assert(story.open(story.tasks[path_key]));
        } else {
            assert(story.open(b));
        }
    }
}

/// Writing a save that may run keeps the story orderly.
pub proof fn law_finishing_keeps_order(story: SaveStory, ticket: u64)
    requires
        story.orderly(),
        story.may_run(ticket),
    ensures
        story.finished(ticket).orderly(),
{
    let after = story.finished(ticket);
    assert forall|t: u64| #[trigger] after.open(t) implies story.open(t) && t != ticket by {}
    assert forall|t: u64| story.open(t) && t != ticket implies #[trigger] after.open(t) by {}
}

/// In an orderly story no two saves of one file may run at the same time, and none may run while
/// an earlier one of the same file is open.
pub proof fn law_saves_of_a_file_take_turns(story: SaveStory, a: u64, b: u64)
    requires
        story.orderly(),
        story.open(a),
        story.may_run(b),
        story.saves[a].path_key == story.saves[b].path_key,
        a != b,
    ensures
        b < a,
        !story.may_run(a),
{
}

} // verus!
