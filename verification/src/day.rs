//! Days of the week and sets of days.
//!
//! A `Day` carries the server's ordinal convention: Monday is 1 and
//! Sunday is 7, matching the `numberday1..7` field names of the wire
//! format. `Days` is a set of days, used for edits that touch several
//! days at once.

use vstd::prelude::*;

verus! {

#[derive(Clone, Copy, Debug, PartialEq, Eq, Hash, Structural)]
pub enum Day {
    Monday,
    Tuesday,
    Wednesday,
    Thursday,
    Friday,
    Saturday,
    Sunday,
}

impl Day {
    /// The server-side ordinal of the day: Monday 1 through Sunday 7.
    pub open spec fn spec_ordinal(self) -> int {
        match self {
            Day::Monday => 1,
            Day::Tuesday => 2,
            Day::Wednesday => 3,
            Day::Thursday => 4,
            Day::Friday => 5,
            Day::Saturday => 6,
            Day::Sunday => 7,
        }
    }

    pub fn ordinal(&self) -> (r: u8)
        ensures
            r == self.spec_ordinal(),
            1 <= r <= 7,
    {
        match self {
            Day::Monday => 1,
            Day::Tuesday => 2,
            Day::Wednesday => 3,
            Day::Thursday => 4,
            Day::Friday => 5,
            Day::Saturday => 6,
            Day::Sunday => 7,
        }
    }

    /// The day with a given ordinal, defined for 1 through 7.
    pub open spec fn spec_of_ordinal(o: int) -> Day {
        if o == 1 {
            Day::Monday
        } else if o == 2 {
            Day::Tuesday
        } else if o == 3 {
            Day::Wednesday
        } else if o == 4 {
            Day::Thursday
        } else if o == 5 {
            Day::Friday
        } else if o == 6 {
            Day::Saturday
        } else {
            Day::Sunday
        }
    }

    pub fn of_ordinal(o: u8) -> (r: Day)
        requires
            1 <= o <= 7,
        ensures
            r == Day::spec_of_ordinal(o as int),
            r.spec_ordinal() == o,
    {
        match o {
            1 => Day::Monday,
            2 => Day::Tuesday,
            3 => Day::Wednesday,
            4 => Day::Thursday,
            5 => Day::Friday,
            6 => Day::Saturday,
            _ => Day::Sunday,
        }
    }

    /// Like `of_ordinal`, but rejecting ordinals outside 1..=7.
    pub fn from_ordinal(o: u8) -> (r: Option<Day>)
        ensures
            r is Some <==> 1 <= o <= 7,
            r is Some ==> r.unwrap().spec_ordinal() == o,
    {
        if 1 <= o && o <= 7 {
            Some(Day::of_ordinal(o))
        } else {
            None
        }
    }
}

/// A set of days of the week, as membership flags indexed by ordinal.
pub struct Days {
    flags: Vec<bool>,
}

impl View for Days {
    type V = Set<Day>;

    closed spec fn view(&self) -> Set<Day> {
        Set::new(|d: Day| self.flags@[d.spec_ordinal() - 1])
    }
}

impl Days {
    pub closed spec fn wf(self) -> bool {
        self.flags@.len() == 7
    }

    pub fn empty() -> (r: Days)
        ensures
            r.wf(),
            r@ == Set::<Day>::empty(),
    {
        let mut flags: Vec<bool> = Vec::new();
        let mut i: usize = 0;
        while i < 7
            invariant
                i == flags@.len() <= 7,
                forall|j: int| 0 <= j < i ==> !flags@[j],
            decreases 7 - i,
        {
            flags.push(false);
            i = i + 1;
        }
        let r = Days { flags };
        proof {
            assert(r@ =~= Set::<Day>::empty());
        }
        r
    }

    pub fn insert(&mut self, d: Day)
        requires
            old(self).wf(),
        ensures
            final(self).wf(),
            final(self)@ == old(self)@.insert(d),
    {
        let o = d.ordinal();
        self.flags.set((o - 1) as usize, true);
        proof {
            assert(self@ =~= old(self)@.insert(d));
        }
    }

    pub fn contains(&self, d: Day) -> (r: bool)
        requires
            self.wf(),
        ensures
            r == self@.contains(d),
    {
        let o = d.ordinal();
        self.flags[(o - 1) as usize]
    }

    pub fn is_empty(&self) -> (r: bool)
        requires
            self.wf(),
        ensures
            r <==> self@ == Set::<Day>::empty(),
    {
        let mut o: u8 = 1;
        let mut found = false;
        while o <= 7
            invariant
                1 <= o <= 8,
                self.wf(),
                found <==> exists|d: Day| d.spec_ordinal() < o && self@.contains(d),
            decreases 8 - o,
        {
            if self.contains(Day::of_ordinal(o)) {
                proof {
                    assert(Day::spec_of_ordinal(o as int).spec_ordinal() < o + 1);
                }
                found = true;
            }
            o = o + 1;
        }
        proof {
            if !found {
                assert forall|d: Day| !self@.contains(d) by {
                    assert(d.spec_ordinal() < 8);
                }
                assert(self@ =~= Set::<Day>::empty());
            } else {
                let d = choose|d: Day| d.spec_ordinal() < 8 && self@.contains(d);
                assert(self@.contains(d));
            }
        }
        !found
    }

    /// The members in ordinal order.
    pub fn to_vec(&self) -> (r: Vec<Day>)
        requires
            self.wf(),
        ensures
            forall|i: int| 0 <= i < r@.len() ==> self@.contains(#[trigger] r@[i]),
            forall|d: Day| self@.contains(d) ==> r@.contains(d),
            forall|i: int, j: int|
                0 <= i < j < r@.len() ==> r@[i].spec_ordinal() < r@[j].spec_ordinal(),
    {
        let mut r: Vec<Day> = Vec::new();
        let mut o: u8 = 1;
        while o <= 7
            invariant
                1 <= o <= 8,
                self.wf(),
                forall|i: int| 0 <= i < r@.len() ==> self@.contains(#[trigger] r@[i]),
                forall|i: int| 0 <= i < r@.len() ==> r@[i].spec_ordinal() < o,
                forall|d: Day| d.spec_ordinal() < o && self@.contains(d) ==> r@.contains(d),
                forall|i: int, j: int|
                    0 <= i < j < r@.len() ==> r@[i].spec_ordinal() < r@[j].spec_ordinal(),
            decreases 8 - o,
        {
            let d = Day::of_ordinal(o);
            if self.contains(d) {
                let ghost prev = r@;
                r.push(d);
                proof {
                    assert forall|x: Day| x.spec_ordinal() < o + 1 && self@.contains(x) implies r@
                        .contains(x) by {
                        if x.spec_ordinal() < o {
                            let i = choose|i: int| 0 <= i < prev.len() && prev[i] == x;
                            assert(r@[i] == x);
                        } else {
                            assert(x == d);
                            assert(r@[r@.len() - 1] == x);
                        }
                    }
                }
            } else {
                proof {
                    assert forall|x: Day| x.spec_ordinal() < o + 1 && self@.contains(x) implies r@
                        .contains(x) by {
                        assert(x.spec_ordinal() < o);
                    }
                }
            }
            o = o + 1;
        }
        proof {
            assert forall|d: Day| self@.contains(d) implies r@.contains(d) by {
                assert(d.spec_ordinal() < 8);
            }
        }
        r
    }
}

} // verus!
