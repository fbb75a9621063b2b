//! The argument vector that the host hands to a job when it starts.
//!
//! The host passes a count and an array of byte strings. The array itself may
//! be missing, and so may any single entry: both mean "absent", never an
//! error.

use vstd::prelude::*;
use vstd::string::StringSliceAdditionalSpecFns;
use vstd::utf8::valid_utf8;

verus! {

/// One entry of the host's array as the contracts see it: the bytes of the
/// string without its terminator, or `None` for a missing entry.
pub open spec fn slot_view(slot: Option<Vec<u8>>) -> Option<Seq<u8>> {
    match slot {
        Some(bytes) => Some(bytes@),
        None => None,
    }
}

/// The entries that a count and an array stand for: the first `count` entries
/// of the array, or none at all where the count is not positive or the array
/// is missing.
pub open spec fn raw_view(count: i32, array: Option<Vec<Option<Vec<u8>>>>) -> Seq<Option<Seq<u8>>> {
    match array {
        Some(slots) if count > 0 => Seq::new(count as nat, |i: int| slot_view(slots@[i])),
        _ => Seq::empty(),
    }
}

/// Number of entries at the front of `entries` that are present.
pub open spec fn present_prefix(entries: Seq<Option<Seq<u8>>>) -> nat
    decreases entries.len(),
{
    if entries.len() == 0 || entries[0] is None {
        0
    } else {
        1 + present_prefix(entries.drop_first())
    }
}

/// A read-only view of the arguments of one job invocation.
pub struct Args {
    slots: Vec<Option<Vec<u8>>>,
}

impl Args {
    /// The entries in index order.
    pub closed spec fn view(&self) -> Seq<Option<Seq<u8>>> {
        Seq::new(self.slots@.len(), |i: int| slot_view(self.slots@[i]))
    }

    /// What `get` answers at `index`.
    pub open spec fn spec_get(&self, index: int) -> Option<Seq<u8>> {
        if 0 <= index < self@.len() {
            self@[index]
        } else {
            None
        }
    }

    /// Builds the view from what the host supplied. The caller vouches that a
    /// present array holds at least `count` entries.
    pub fn from_raw(count: i32, array: Option<Vec<Option<Vec<u8>>>>) -> (args: Args)
        requires
            array is Some && count > 0 ==> count <= array->Some_0@.len(),
        ensures
            args@ == raw_view(count, array),
    {
        let args = match array {
            Some(mut slots) if count > 0 => {
                slots.truncate(count as usize);
                Args { slots }
            },
            _ => Args { slots: Vec::new() },
        };
        assert(args@ =~= raw_view(count, array));
        args
    }

    pub fn len(&self) -> (n: usize)
        ensures
            n == self@.len(),
    {
        self.slots.len()
    }

    pub fn is_empty(&self) -> (empty: bool)
        ensures
            empty == (self@.len() == 0),
    {
        self.slots.len() == 0
    }

    /// The argument at `index`. It is absent where the index is past the end
    /// and where the host left that entry out.
    pub fn get(&self, index: usize) -> (arg: Option<&[u8]>)
        ensures
            match arg {
                Some(bytes) => self.spec_get(index as int) == Some(bytes@),
                None => self.spec_get(index as int) is None,
            },
    {
        if index >= self.slots.len() {
            return None;
        }
        match &self.slots[index] {
            Some(bytes) => Some(bytes.as_slice()),
            None => None,
        }
    }

    /// Starts a walk over the arguments from the first one.
    pub fn iter(&self) -> (it: ArgsIter<'_>)
        ensures
            it.args == self,
            it.index == 0,
            it.rest() == self@.take(present_prefix(self@) as int).map_values(|e: Option<Seq<u8>>| e->Some_0),
    {
        let it = ArgsIter { args: self, index: 0 };
        proof {
            lemma_rest_is_prefix(self@, 0);
            assert(self@.skip(0) =~= self@);
        }
        it
    }
}

/// The strings that a walk over `entries` hands out from `index` on: those up
/// to the first absent entry.
pub open spec fn rest_from(entries: Seq<Option<Seq<u8>>>, index: int) -> Seq<Seq<u8>>
    decreases entries.len() - index,
{
    if 0 <= index < entries.len() && entries[index] is Some {
        seq![entries[index]->Some_0] + rest_from(entries, index + 1)
    } else {
        Seq::empty()
    }
}

/// A walk hands out exactly the present entries at the front of what is left.
pub proof fn lemma_rest_is_prefix(entries: Seq<Option<Seq<u8>>>, index: int)
    requires
        0 <= index <= entries.len(),
    ensures
        rest_from(entries, index) == entries.skip(index).take(
            present_prefix(entries.skip(index)) as int,
        ).map_values(|e: Option<Seq<u8>>| e->Some_0),
        present_prefix(entries.skip(index)) <= entries.len() - index,
    decreases entries.len() - index,
{
    let tail = entries.skip(index);
    let pick = |e: Option<Seq<u8>>| e->Some_0;
    if index < entries.len() && entries[index] is Some {
        lemma_rest_is_prefix(entries, index + 1);
        assert(tail.drop_first() =~= entries.skip(index + 1));
        let k = present_prefix(entries.skip(index + 1)) as int;
        assert(tail.take(k + 1).map_values(pick) =~= seq![entries[index]->Some_0]
            + entries.skip(index + 1).take(k).map_values(pick));
    } else {
        assert(tail.take(0).map_values(pick) =~= Seq::<Seq<u8>>::empty());
    }
}

/// For a count that is not positive, or a missing array, the vector is empty
/// and every index is absent. Otherwise an index below the count answers with
/// the array's entry, absent where that entry is missing, and an index from
/// the count on is absent.
pub proof fn lemma_args_bounds(
    args: Args,
    count: i32,
    array: Option<Vec<Option<Vec<u8>>>>,
    index: int,
)
    requires
        args@ == raw_view(count, array),
    ensures
        count <= 0 || array is None ==> args@.len() == 0 && args.spec_get(index) is None,
        count > 0 && array is Some && 0 <= index < count ==> args.spec_get(index) == slot_view(
            array->Some_0@[index],
        ),
        index < 0 || index >= count ==> args.spec_get(index) is None,
{
}

/// A walk stops for good at the first absent entry: from there on it hands
/// out nothing, whatever lies behind that entry.
pub proof fn lemma_walk_stops(entries: Seq<Option<Seq<u8>>>, index: int)
    requires
        0 <= index < entries.len(),
        entries[index] is None,
    ensures
        rest_from(entries, index) == Seq::<Seq<u8>>::empty(),
{
}

/// A position in a walk over an argument vector.
pub struct ArgsIter<'a> {
    pub args: &'a Args,
    pub index: usize,
}

impl<'a> ArgsIter<'a> {
    /// The strings that the walk has yet to hand out.
    pub open spec fn rest(&self) -> Seq<Seq<u8>> {
        rest_from(self.args@, self.index as int)
    }

    /// Hands out the next argument and moves on, or stays where it is once an
    /// entry is absent.
    pub fn next(&mut self) -> (arg: Option<&'a [u8]>)
        ensures
            final(self).args == old(self).args,
            match arg {
                Some(bytes) => {
                    &&& old(self).args.spec_get(old(self).index as int) == Some(bytes@)
                    &&& final(self).index == old(self).index + 1
                    &&& old(self).rest() == seq![bytes@] + final(self).rest()
                },
                None => {
                    &&& old(self).args.spec_get(old(self).index as int) is None
                    &&& final(self).index == old(self).index
                    &&& old(self).rest() == Seq::<Seq<u8>>::empty()
                },
            },
    {
        let args: &'a Args = self.args;
        match args.get(self.index) {
            Some(bytes) => {
                assert(self.index < args@.len() == args.slots.len());
                self.index = self.index + 1;
                Some(bytes)
            },
            None => None,
        }
    }
}

/// The error of `core::str::from_utf8`. It is carried from the call to the
/// place where it is replaced by `NotText`, and never looked into.
#[verifier::external_type_specification]
#[verifier::external_body]
pub struct ExUtf8Error(core::str::Utf8Error);

/// Calls `core::str::from_utf8`. Believed of it, not proved: it succeeds on
/// exactly the byte strings that are well-formed UTF-8, and the text it then
/// returns is made of the very bytes it was given.
#[verifier::external_body]
fn from_utf8(bytes: &[u8]) -> (r: Result<&str, core::str::Utf8Error>)
    ensures
        r is Ok <==> valid_utf8(bytes@),
        r matches Ok(text) ==> text.spec_bytes() == bytes@,
{
    core::str::from_utf8(bytes)
}

/// An argument that is not text.
#[derive(Copy, Clone, Debug, PartialEq, Eq, Structural)]
pub struct NotText;

/// Reads an argument as text. Bytes that are not well-formed UTF-8 are
/// reported to the caller; the argument vector and any walk over it are
/// untouched, so the other arguments can still be read.
pub fn to_str(arg: &[u8]) -> (r: Result<&str, NotText>)
    ensures
        r is Ok <==> valid_utf8(arg@),
        r matches Ok(text) ==> text.spec_bytes() == arg@,
{
    match from_utf8(arg) {
        Ok(text) => Ok(text),
        Err(_) => Err(NotText),
    }
}

} // verus!
