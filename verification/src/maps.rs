//! Requests to share maps between instrumentation programs.

use crate::error::Error;
use vstd::prelude::*;

verus! {

/// The names of a list of map requests, in order.
pub open spec fn map_names(maps: Seq<(Seq<char>, i32)>) -> Seq<Seq<char>> {
    maps.map_values(|m: (Seq<char>, i32)| m.0)
}

/// What a list of map requests is: each name with its descriptor.
pub open spec fn maps_view(maps: Seq<(String, i32)>) -> Seq<(Seq<char>, i32)> {
    maps.map_values(|m: (String, i32)| (m.0@, m.1))
}

/// A copy of a list of map requests.
pub fn clone_maps(maps: &Vec<(String, i32)>) -> (r: Vec<(String, i32)>)
    ensures
        r@ == maps@,
{
    let mut r: Vec<(String, i32)> = Vec::new();
    let mut i: usize = 0;
    while i < maps.len()
        invariant
            i <= maps@.len(),
            r@ == maps@.take(i as int),
        decreases maps@.len() - i,
    {
        r.push((maps[i].0.clone(), maps[i].1));
        assert(r@ =~= maps@.take(i + 1));
        i += 1;
    }
    assert(maps@.take(maps@.len() as int) =~= maps@);
    r
}

/// Requests to reuse existing maps, each under a name of its own.
///
/// A program that is loaded with such a set uses, for each name in it, the
/// map behind the descriptor in place of a map of its own. No name occurs
/// twice, and the requests stay in the order in which they were made.
pub struct MapSet {
    list: Vec<(String, i32)>,
}

impl View for MapSet {
    type V = Seq<(Seq<char>, i32)>;

    closed spec fn view(&self) -> Seq<(Seq<char>, i32)> {
        maps_view(self.list@)
    }
}

impl MapSet {
    #[verifier::type_invariant]
    spec fn unique_names(&self) -> bool {
        map_names(maps_view(self.list@)).no_duplicates()
    }

    /// A set without any request.
    pub fn new() -> (s: MapSet)
        ensures
            s@ == Seq::<(Seq<char>, i32)>::empty(),
    {
        let s = MapSet { list: Vec::new() };
        assert(s@ =~= Seq::<(Seq<char>, i32)>::empty());
        s
    }

    /// Whether a request was made under `name`.
    pub fn contains(&self, name: &str) -> (b: bool)
        ensures
            b == map_names(self@).contains(name@),
    {
        let wanted = name.to_owned();
        let mut i: usize = 0;
        while i < self.list.len()
            invariant
                i <= self.list@.len(),
                wanted@ == name@,
                forall|j: int| 0 <= j < i ==> map_names(self@)[j] != name@,
            decreases self.list@.len() - i,
        {
            if self.list[i].0 == wanted {
                assert(map_names(self@)[i as int] == name@);
                return true;
            }
            i += 1;
        }
        false
    }

    /// Requests the reuse of the map behind `fd` under `name`.
    ///
    /// Fails with [`Error::NameConflict`] if a request was already made under
    /// that name; the set is then left as it was.
    pub fn insert(&mut self, name: &str, fd: i32) -> (r: Result<(), Error>)
        ensures
            r is Err <==> map_names(old(self)@).contains(name@),
            r is Err ==> r == Err::<(), Error>(Error::NameConflict) && *final(self) == *old(self),
            r is Ok ==> final(self)@ == old(self)@.push((name@, fd)),
            map_names(final(self)@).no_duplicates(),
    {
        proof {
            use_type_invariant(&*self);
        }
        if self.contains(name) {
            return Err(Error::NameConflict);
        }
        let mut list = Vec::new();
        std::mem::swap(&mut list, &mut self.list);
        list.push((name.to_owned(), fd));
        proof {
            assert(maps_view(list@) =~= old(self)@.push((name@, fd)));
            assert(map_names(maps_view(list@)) =~= map_names(old(self)@).push(name@));
        }
        self.list = list;
        Ok(())
    }

    /// The number of requests.
    pub fn len(&self) -> (n: usize)
        ensures
            n == self@.len(),
    {
        self.list.len()
    }

    /// The requests as a list, in the order in which they were made. No name
    /// occurs twice in it.
    pub fn to_vec(&self) -> (r: Vec<(String, i32)>)
        ensures
            maps_view(r@) == self@,
            map_names(self@).no_duplicates(),
    {
        proof {
            use_type_invariant(self);
        }
        clone_maps(&self.list)
    }
}

impl Clone for MapSet {
    fn clone(&self) -> (r: MapSet)
        ensures
            r@ == self@,
    {
        proof {
            use_type_invariant(self);
        }
        MapSet { list: clone_maps(&self.list) }
    }
}

} // verus!
