//! Which users' folders have been initialized.

use vstd::prelude::*;

verus! {

struct InitFlag {
    user_id: String,
    done: bool,
}

/// The flags that a list of notes leaves: a later note of a user replaces an
/// earlier one.
pub open spec fn flags_of(notes: Seq<(Seq<char>, bool)>) -> Map<Seq<char>, bool>
    decreases notes.len(),
{
    if notes.len() == 0 {
        Map::empty()
    } else {
        flags_of(notes.drop_last()).insert(notes.last().0, notes.last().1)
    }
}

/// For each user that is known, whether the user's folder has been
/// initialized.
pub struct InitFlags {
    notes: Vec<InitFlag>,
}

impl InitFlags {
    closed spec fn notes(&self) -> Seq<(Seq<char>, bool)> {
        self.notes@.map_values(|f: InitFlag| (f.user_id@, f.done))
    }
}

impl vstd::view::View for InitFlags {
    type V = Map<Seq<char>, bool>;

    closed spec fn view(&self) -> Map<Seq<char>, bool> {
        flags_of(self.notes())
    }
}

impl InitFlags {
    pub fn new() -> (flags: InitFlags)
        ensures
            flags@ == Map::<Seq<char>, bool>::empty(),
    {
        let flags = InitFlags { notes: Vec::new() };
        proof {
            assert(flags.notes() =~= Seq::<(Seq<char>, bool)>::empty());
        }
        flags
    }

    /// Notes a user's flag; an earlier flag of the user is replaced.
    pub fn insert(&mut self, user_id: String, done: bool)
        ensures
            final(self)@ == old(self)@.insert(user_id@, done),
    {
        proof {
            let after = old(self).notes().push((user_id@, done));
            assert(after.drop_last() =~= old(self).notes());
            assert(self.notes@.push(InitFlag { user_id, done }).map_values(
                |f: InitFlag| (f.user_id@, f.done),
            ) =~= after);
        }
        self.notes.push(InitFlag { user_id, done });
    }

    /// The user's flag, if the user has one.
    pub fn get(&self, user_id: &str) -> (flag: Option<bool>)
        ensures
            flag == if self@.dom().contains(user_id@) {
                Some(self@[user_id@])
            } else {
                None
            },
    {
        let key = user_id.to_owned();
        let ghost notes = self.notes();
        let mut i: usize = self.notes.len();
        proof {
            assert(notes.take(i as int) =~= notes);
        }
        while i > 0
            invariant
                i <= self.notes.len(),
                notes == self.notes(),
                key@ == user_id@,
                self@.dom().contains(user_id@) == flags_of(notes.take(i as int)).dom().contains(
                    user_id@,
                ),
                self@.dom().contains(user_id@) ==> self@[user_id@] == flags_of(
                    notes.take(i as int),
                )[user_id@],
            decreases i,
        {
            let note = &self.notes[i - 1];
            proof {
                let upto = notes.take(i as int);
                assert(upto.drop_last() =~= notes.take(i - 1));
                assert(upto.last() == (note.user_id@, note.done));
            }
            if note.user_id == key {
                return Some(note.done);
            }
            i -= 1;
        }
        None
    }
}

} // verus!
