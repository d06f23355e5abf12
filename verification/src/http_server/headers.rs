//! Lists of headers: names with their values, in the order in which the
//! names first came, with no name twice.

use vstd::prelude::*;
use vstd::string::*;
use crate::text::owned;

verus! {

/// A header: its name and its value.
pub type Header = (Seq<char>, Seq<char>);

/// Whether a header with this name is in the list.
pub open spec fn has_header(headers: Seq<Header>, name: Seq<char>) -> bool {
    exists|i: int| 0 <= i < headers.len() && (#[trigger] headers[i]).0 == name
}

/// Where the header with this name stands in the list.
pub open spec fn header_at(headers: Seq<Header>, name: Seq<char>) -> int {
    choose|i: int| 0 <= i < headers.len() && (#[trigger] headers[i]).0 == name
}

/// The value of the header with this name, if it is in the list.
pub open spec fn header_value(headers: Seq<Header>, name: Seq<char>) -> Option<Seq<char>> {
    if has_header(headers, name) {
        Some(headers[header_at(headers, name)].1)
    } else {
        None
    }
}

/// Whether no name occurs twice in the list.
pub open spec fn distinct_names(headers: Seq<Header>) -> bool {
    forall|i: int, j: int|
        0 <= i < headers.len() && 0 <= j < headers.len() && i != j ==> (#[trigger] headers[i]).0 != (
        #[trigger] headers[j]).0
}

/// The list with the header set: a header of that name keeps its place
/// and gets the new value; a new header goes to the end.
pub open spec fn set_header(headers: Seq<Header>, name: Seq<char>, value: Seq<char>) -> Seq<Header> {
    if has_header(headers, name) {
        headers.update(header_at(headers, name), (name, value))
    } else {
        headers.push((name, value))
    }
}

/// The list without the header of that name.
pub open spec fn without_header(headers: Seq<Header>, name: Seq<char>) -> Seq<Header> {
    if has_header(headers, name) {
        headers.remove(header_at(headers, name))
    } else {
        headers
    }
}

/// A list of headers.
#[derive(Debug, Clone)]
pub struct Headers {
    entries: Vec<(String, String)>,
}

impl View for Headers {
    type V = Seq<Header>;

    closed spec fn view(&self) -> Seq<Header> {
        Seq::new(self.entries@.len(), |i: int| (self.entries@[i].0@, self.entries@[i].1@))
    }
}

impl Headers {
    /// Whether no name occurs twice.
    pub open spec fn wf(&self) -> bool {
        distinct_names(self@)
    }

    /// An empty list.
    pub fn new() -> (headers: Headers)
        ensures
            headers.wf(),
            headers@ == Seq::<Header>::empty(),
    {
        let headers = Headers { entries: Vec::new() };
        assert(headers@ =~= Seq::<Header>::empty());
        headers
    }

    /// A copy of the list.
    pub fn copy(&self) -> (same: Headers)
        ensures
            same@ == self@,
    {
        let mut entries: Vec<(String, String)> = Vec::new();
        let mut i: usize = 0;
        while i < self.entries.len()
            invariant
                i <= self.entries.len(),
                entries@.len() == i,
                forall|k: int|
                    0 <= k < i ==> (#[trigger] entries@[k]).0@ == self.entries@[k].0@
                        && entries@[k].1@ == self.entries@[k].1@,
            decreases self.entries.len() - i,
        {
            entries.push((owned(self.entries[i].0.as_str()), owned(self.entries[i].1.as_str())));
            i += 1;
        }
        let same = Headers { entries };
        assert(same@ =~= self@);
        same
    }

    /// How many headers the list has.
    pub fn len(&self) -> (n: usize)
        ensures
            n == self@.len(),
    {
        self.entries.len()
    }

    /// The name of the header at this place.
    pub fn name_at(&self, index: usize) -> (name: &str)
        requires
            index < self@.len(),
        ensures
            name@ == self@[index as int].0,
    {
        self.entries[index].0.as_str()
    }

    /// The value of the header at this place.
    pub fn value_at(&self, index: usize) -> (value: &str)
        requires
            index < self@.len(),
        ensures
            value@ == self@[index as int].1,
    {
        self.entries[index].1.as_str()
    }

    /// Where the header with this name stands, if it is in the list.
    fn find(&self, name: &String) -> (r: Option<usize>)
        requires
            self.wf(),
        ensures
            match r {
                Some(i) => has_header(self@, name@) && i == header_at(self@, name@),
                None => !has_header(self@, name@),
            },
    {
        let mut i: usize = 0;
        while i < self.entries.len()
            invariant
                i <= self.entries.len(),
                self.wf(),
                forall|k: int| 0 <= k < i ==> (#[trigger] self@[k]).0 != name@,
            decreases self.entries.len() - i,
        {
            if self.entries[i].0 == *name {
                proof {
                    assert(self@[i as int].0 == name@);
                    assert(header_at(self@, name@) == i);
                }
                return Some(i);
            }
            i += 1;
        }
        None
    }

    /// Sets a header: see [`set_header`].
    pub fn set(&mut self, key: &str, value: &str)
        requires
            old(self).wf(),
        ensures
            final(self).wf(),
            final(self)@ == set_header(old(self)@, key@, value@),
    {
        let name = owned(key);
        let ghost before = self@;
        match self.find(&name) {
            Some(i) => {
                self.entries.set(i, (name, owned(value)));
                proof {
                    let after = self@;
                    assert(after =~= before.update(i as int, (key@, value@)));
                    assert forall|a: int, b: int|
                        0 <= a < after.len() && 0 <= b < after.len() && a != b implies (
                    #[trigger] after[a]).0 != (#[trigger] after[b]).0 by {
                        assert(after[a].0 == before[a].0);
                        assert(after[b].0 == before[b].0);
                    }
                }
            },
            None => {
                self.entries.push((name, owned(value)));
                proof {
                    let after = self@;
                    assert(after =~= before.push((key@, value@)));
                    assert forall|a: int, b: int|
                        0 <= a < after.len() && 0 <= b < after.len() && a != b implies (
                    #[trigger] after[a]).0 != (#[trigger] after[b]).0 by {
                        if a < before.len() {
                            assert(after[a] == before[a]);
                        }
                        if b < before.len() {
                            assert(after[b] == before[b]);
                        }
                    }
                }
            },
        }
    }

    /// Removes the header of that name, if there is one.
    pub fn remove(&mut self, key: &str)
        requires
            old(self).wf(),
        ensures
            final(self).wf(),
            final(self)@ == without_header(old(self)@, key@),
    {
        let name = owned(key);
        let ghost before = self@;
        match self.find(&name) {
            Some(i) => {
                let _gone = self.entries.remove(i);
                proof {
                    let after = self@;
                    assert(after =~= before.remove(i as int));
                    assert forall|a: int, b: int|
                        0 <= a < after.len() && 0 <= b < after.len() && a != b implies (
                    #[trigger] after[a]).0 != (#[trigger] after[b]).0 by {
                        let a0 = if a < i {
                            a
                        } else {
                            a + 1
                        };
                        let b0 = if b < i {
                            b
                        } else {
                            b + 1
                        };
                        assert(after[a] == before[a0]);
                        assert(after[b] == before[b0]);
                    }
                }
            },
            None => {},
        }
    }

    /// The value of the header of that name, if there is one.
    pub fn get(&self, key: &str) -> (r: Option<&str>)
        requires
            self.wf(),
        ensures
            match r {
                Some(value) => header_value(self@, key@) == Some(value@),
                None => header_value(self@, key@) is None,
            },
    {
        let name = owned(key);
        match self.find(&name) {
            Some(i) => Some(self.entries[i].1.as_str()),
            None => None,
        }
    }
}

} // verus!
